//! The natural-language screener: a bounded request text is parsed into a
//! filter specification and a rank specification, with an explicit reason
//! for every condition it cannot represent; a run filters and ranks the
//! synthetic fixture rows, or reports which provider sources block it.
use vstd::prelude::*;
use crate::protocol::{
    is_catalog_error, DataSourceEntry, DataSourceStatus, FilterSpec, TradeXError, RankSpec, ResearchFocus, ResearchFreshness, ResearchQuality, ScreenerCandidate,
    ScreenerDirection, ScreenerFeature, ScreenerFeatureField, ScreenerOperation, ScreenerOperator,
    ScreenerPredicate, ScreenerPredicateField, ScreenerProvenance, ScreenerRankField, ScreenerRequest, ScreenerResult,
    ScreenerResultState, ScreenerUniverse,
};
use crate::research::{hex_encode, hex_text, sha256_digest, sha256_of_text, text_views};
use crate::amount::{compare_amounts, parse_amount, text_value, value_order, zeros};
use crate::decimal::{
    Comparison, order_of, pow10,
    decimal_accepts, decimal_normal, digit_value, digits_value, fraction_of, lemma_digits_value_bounds, nat_text, u64_text, is_negative_text, lemma_normal_len, push_all,
    push_chars, normalize_decimal_text, trimmed_whole, unsigned_part, whole_key, whole_of,
};
use crate::text::{
    all_digits, all_whitespace, any_control, blank, byte_len, char_is_whitespace, chars, concat, has_control, contains, contains_str, digits_only, find, find_in, find_str, is_whitespace, has_suffix, is_alnum, is_digit, lemma_find_from_bounds,
    lemma_index_of, lemma_utf8_len_le_4, matches_at, occurs_at, char_width, slice, split_or_whole,
    owned, push_char, str_eq, string_of_all, trim_end, trim_end_char, trim_whitespace, trim_ws, utf8_len,
};

verus! {

// ----------------------------------------------------------------------------
// Text primitives
// ----------------------------------------------------------------------------

/// The lowercase form of a text, by the Unicode lowercase mapping.
pub uninterp spec fn lowercase(text: Seq<char>) -> Seq<char>;

/// `str::to_lowercase`: the lowercase equivalent of the text under the
/// Unicode lowercase mapping, which is a function of the text alone. What
/// the mapping does to each character is not stated here.
#[verifier::external_body]
fn lowercase_text(text: &str) -> (r: String)
    ensures
        r@ == lowercase(text@),
{
    text.to_lowercase()
}

/// `w` occurs at `i` as a whole word: not preceded or followed by an ASCII
/// letter or digit.
pub open spec fn word_at(t: Seq<char>, w: Seq<char>, i: int) -> bool {
    &&& occurs_at(t, w, i)
    &&& (i == 0 || !is_alnum(t[i - 1]))
    &&& (i + w.len() == t.len() || !is_alnum(t[i + w.len()]))
}

/// The text holds `w` as a whole word.
pub open spec fn contains_word(t: Seq<char>, w: Seq<char>) -> bool {
    exists|i: int| word_at(t, w, i)
}

pub fn ascii_alnum(c: char) -> (r: bool)
    ensures
        r == is_alnum(c),
{
    ('0' <= c && c <= '9') || ('A' <= c && c <= 'Z') || ('a' <= c && c <= 'z')
}

pub fn has_word(t: &Vec<char>, w: &str) -> (r: bool)
    ensures
        r == contains_word(t@, w@),
{
    let wv = chars(w);
    let mut i: usize = 0;
    while i <= t.len()
        invariant
            wv@ == w@,
            forall|j: int| 0 <= j < i ==> !word_at(t@, w@, j),
        decreases t@.len() + 1 - i,
    {
        if matches_at(t, &wv, i) {
            let left = i == 0 || !ascii_alnum(t[i - 1]);
            let right = i + wv.len() == t.len() || !ascii_alnum(t[i + wv.len()]);
            if left && right {
                assert(word_at(t@, w@, i as int));
                return true;
            }
        }
        if i == t.len() {
            assert forall|j: int| #![auto] j < 0 || j > t@.len() implies !word_at(t@, w@, j) by {}
            return false;
        }
        i = i + 1;
    }
    assert forall|j: int| #![auto] j < 0 || j > t@.len() implies !word_at(t@, w@, j) by {}
    false
}

/// The longest prefix of `s` whose UTF-8 encoding fits in `budget` bytes,
/// when the budget ends on a character boundary or past the end of `s`;
/// `None` when the budget ends inside a character (slicing `str` there
/// panics).
pub open spec fn cut_prefix(s: Seq<char>, budget: int) -> Option<Seq<char>>
    decreases s.len(),
{
    if s.len() == 0 {
        Some(Seq::empty())
    } else if char_width(s[0]) <= budget {
        match cut_prefix(s.drop_first(), budget - char_width(s[0])) {
            Some(r) => Some(seq![s[0]] + r),
            None => None,
        }
    } else if budget == 0 {
        Some(Seq::empty())
    } else {
        None
    }
}

pub open spec fn prepend_opt(p: Seq<char>, o: Option<Seq<char>>) -> Option<Seq<char>> {
    match o {
        Some(r) => Some(p + r),
        None => None,
    }
}

fn width_of(c: char) -> (r: usize)
    ensures
        r == char_width(c),
{
    if (c as u32) < 0x80 {
        1
    } else if (c as u32) < 0x800 {
        2
    } else if (c as u32) < 0x10000 {
        3
    } else {
        4
    }
}

/// `s[from..]` cut to at most `budget` UTF-8 bytes (see `cut_prefix`).
pub fn cut_bytes(s: &Vec<char>, from: usize, budget: usize) -> (r: Option<Vec<char>>)
    requires
        from <= s@.len(),
    ensures
        match r {
            Some(v) => cut_prefix(s@.subrange(from as int, s@.len() as int), budget as int)
                == Some(v@),
            None => cut_prefix(s@.subrange(from as int, s@.len() as int), budget as int) is None,
        },
{
    let ghost whole = s@.subrange(from as int, s@.len() as int);
    let mut i: usize = from;
    let mut b: usize = budget;
    assert(whole =~= seq![] + whole);
    while i < s.len()
        invariant
            from <= i <= s@.len(),
            whole == s@.subrange(from as int, s@.len() as int),
            cut_prefix(whole, budget as int) == prepend_opt(
                s@.subrange(from as int, i as int),
                cut_prefix(s@.subrange(i as int, s@.len() as int), b as int),
            ),
        decreases s@.len() - i,
    {
        let ghost rest = s@.subrange(i as int, s@.len() as int);
        let w = width_of(s[i]);
        assert(rest[0] == s@[i as int]);
        if w <= b {
            proof {
                assert(rest.drop_first() =~= s@.subrange(i + 1, s@.len() as int));
                let tail = cut_prefix(rest.drop_first(), b - w);
                match tail {
                    Some(x) => {
                        assert(s@.subrange(from as int, i as int) + (seq![s@[i as int]] + x)
                            =~= s@.subrange(from as int, i + 1) + x);
                    },
                    None => {},
                }
            }
            b = b - w;
            i = i + 1;
        } else if b == 0 {
            let v = slice(s, from, i);
            assert(v@ =~= s@.subrange(from as int, i as int) + Seq::<char>::empty());
            return Some(v);
        } else {
            return None;
        }
    }
    let v = slice(s, from, s.len());
    assert(v@ =~= s@.subrange(from as int, s@.len() as int) + Seq::<char>::empty());
    Some(v)
}

/// The last position at or before `q` at which `p` occurs in `s`.
pub open spec fn rfind_from(s: Seq<char>, p: Seq<char>, q: int) -> Option<int>
    decreases q + 1,
{
    if q < 0 {
        None
    } else if occurs_at(s, p, q) {
        Some(q)
    } else {
        rfind_from(s, p, q - 1)
    }
}

/// The last occurrence of `p` in `s` (`str::rfind`, counted in characters).
pub open spec fn rfind(s: Seq<char>, p: Seq<char>) -> Option<int> {
    rfind_from(s, p, s.len() - p.len())
}

/// The last occurrence of `p` in `s[..to]`.
pub fn rfind_before(s: &Vec<char>, p: &str, to: usize) -> (r: Option<usize>)
    requires
        to <= s@.len(),
    ensures
        match r {
            Some(i) => rfind(s@.subrange(0, to as int), p@) == Some(i as int),
            None => rfind(s@.subrange(0, to as int), p@) is None,
        },
{
    let ghost u = s@.subrange(0, to as int);
    let pv = chars(p);
    if pv.len() > to {
        return None;
    }
    let mut q: usize = to - pv.len();
    loop
        invariant
            pv@ == p@,
            pv@.len() <= to <= s@.len(),
            q + pv@.len() <= to,
            u == s@.subrange(0, to as int),
            rfind(u, p@) == rfind_from(u, p@, q as int),
        decreases q,
    {
        if matches_at(s, &pv, q) {
            assert(u.subrange(q as int, q + pv@.len()) =~= s@.subrange(q as int, q + pv@.len()));
            return Some(q);
        }
        assert(!occurs_at(u, p@, q as int)) by {
            if occurs_at(u, p@, q as int) {
                assert(u.subrange(q as int, q + pv@.len()) =~= s@.subrange(
                    q as int,
                    q + pv@.len(),
                ));
            }
        }
        if q == 0 {
            assert(rfind_from(u, p@, 0) == rfind_from(u, p@, -1));
            return None;
        }
        q = q - 1;
    }
}

/// Where the first number of a text starts: the first digit or minus sign,
/// unless a comma or semicolon comes first.
pub open spec fn number_start(s: Seq<char>, i: int) -> Option<int>
    decreases s.len() - i,
{
    if i < 0 || i >= s.len() {
        None
    } else if is_digit(s[i]) || s[i] == '-' {
        Some(i)
    } else if s[i] == ',' || s[i] == ';' {
        None
    } else {
        number_start(s, i + 1)
    }
}

pub open spec fn number_char(c: char) -> bool {
    is_digit(c) || c == '.' || c == '-' || c == '%'
}

/// End of the run of digits, points, minus and percent signs starting at `i`.
pub open spec fn number_end(s: Seq<char>, i: int) -> int
    decreases s.len() - i,
{
    if i < 0 || i >= s.len() || !number_char(s[i]) {
        i
    } else {
        number_end(s, i + 1)
    }
}

/// The first number written in a text (digits, points, minus and percent
/// signs), without one trailing point; `None` when there is none before a
/// comma or semicolon, or it is a lone minus sign.
pub open spec fn number_after(s: Seq<char>) -> Option<Seq<char>> {
    match number_start(s, 0) {
        None => None,
        Some(k) => {
            let run = s.subrange(k, number_end(s, k));
            let v = if run.len() > 0 && run.last() == '.' {
                run.drop_last()
            } else {
                run
            };
            if v.len() == 0 || v == seq!['-'] {
                None
            } else {
                Some(v)
            }
        },
    }
}

proof fn lemma_number_end(s: Seq<char>, i: int)
    requires
        0 <= i <= s.len(),
    ensures
        i <= number_end(s, i) <= s.len(),
        forall|j: int| i <= j < number_end(s, i) ==> number_char(#[trigger] s[j]),
    decreases s.len() - i,
{
    if i < s.len() && number_char(s[i]) {
        lemma_number_end(s, i + 1);
    }
}

pub fn numeric_after(s: &Vec<char>) -> (r: Option<Vec<char>>)
    ensures
        match r {
            Some(v) => number_after(s@) == Some(v@),
            None => number_after(s@) is None,
        },
{
    let mut k: usize = 0;
    while k < s.len() && !(('0' <= s[k] && s[k] <= '9') || s[k] == '-')
        invariant
            k <= s@.len(),
            number_start(s@, 0) == number_start(s@, k as int),
        decreases s@.len() - k,
    {
        if s[k] == ',' || s[k] == ';' {
            return None;
        }
        k = k + 1;
    }
    if k == s.len() {
        return None;
    }
    let mut e: usize = k;
    proof {
        lemma_number_end(s@, k as int);
    }
    while e < s.len() && (('0' <= s[e] && s[e] <= '9') || s[e] == '.' || s[e] == '-' || s[e]
        == '%')
        invariant
            k <= e <= s@.len(),
            number_end(s@, k as int) == number_end(s@, e as int),
        decreases s@.len() - e,
    {
        e = e + 1;
    }
    let end = if e > k && s[e - 1] == '.' {
        e - 1
    } else {
        e
    };
    let v = slice(s, k, end);
    proof {
        let run = s@.subrange(k as int, e as int);
        if e > k && s@[e - 1] == '.' {
            assert(run.drop_last() =~= v@);
        } else {
            assert(run =~= v@);
        }
    }
    if v.len() == 0 || (v.len() == 1 && v[0] == '-') {
        proof {
            if v@.len() == 1 {
                assert(v@ =~= seq!['-']);
            }
        }
        return None;
    }
    proof {
        if v@ == seq!['-'] {
            assert(v@.len() == 1 && v@[0] == '-');
        }
    }
    Some(v)
}

// ----------------------------------------------------------------------------
// Conditions on one field
// ----------------------------------------------------------------------------

/// The clause names a comparison.
pub open spec fn explicit_operator(c: Seq<char>) -> bool {
    ||| contains(c, "above"@)
    ||| contains(c, "below"@)
    ||| contains(c, "over"@)
    ||| contains(c, "under"@)
    ||| contains(c, "greater"@)
    ||| contains(c, "less"@)
    ||| contains(c, "at least"@)
    ||| contains(c, "at most"@)
    ||| contains(c, "more than"@)
    ||| contains(c, "fewer than"@)
    ||| contains(c, ">"@)
    ||| contains(c, "<"@)
}

pub fn has_explicit_operator(c: &Vec<char>) -> (r: bool)
    ensures
        r == explicit_operator(c@),
{
    contains_str(c, "above") || contains_str(c, "below") || contains_str(c, "over")
        || contains_str(c, "under") || contains_str(c, "greater") || contains_str(c, "less")
        || contains_str(c, "at least") || contains_str(c, "at most") || contains_str(
        c,
        "more than",
    ) || contains_str(c, "fewer than") || contains_str(c, ">") || contains_str(c, "<")
}

/// The comparison words the screener cannot represent, the first that the
/// clause holds; a bare `=` counts unless `>=` or `<=` is present.
pub open spec fn unsupported_op(c: Seq<char>) -> Option<Seq<char>> {
    if contains(c, "="@) && !contains(c, ">="@) && !contains(c, "<="@) {
        Some("="@)
    } else if contains(c, "around"@) {
        Some("around"@)
    } else if contains(c, "approximately"@) {
        Some("approximately"@)
    } else if contains(c, "roughly"@) {
        Some("roughly"@)
    } else if contains(c, "near"@) {
        Some("near"@)
    } else if contains(c, "close to"@) {
        Some("close to"@)
    } else if contains(c, "about"@) {
        Some("about"@)
    } else if contains(c, "between"@) {
        Some("between"@)
    } else if contains(c, "equal"@) {
        Some("equal"@)
    } else if contains(c, "not"@) {
        Some("not"@)
    } else {
        None
    }
}

pub fn unsupported_operator(c: &Vec<char>) -> (r: Option<&'static str>)
    ensures
        match r {
            Some(s) => unsupported_op(c@) == Some(s@),
            None => unsupported_op(c@) is None,
        },
{
    if contains_str(c, "=") && !contains_str(c, ">=") && !contains_str(c, "<=") {
        Some("=")
    } else if contains_str(c, "around") {
        Some("around")
    } else if contains_str(c, "approximately") {
        Some("approximately")
    } else if contains_str(c, "roughly") {
        Some("roughly")
    } else if contains_str(c, "near") {
        Some("near")
    } else if contains_str(c, "close to") {
        Some("close to")
    } else if contains_str(c, "about") {
        Some("about")
    } else if contains_str(c, "between") {
        Some("between")
    } else if contains_str(c, "equal") {
        Some("equal")
    } else if contains_str(c, "not") {
        Some("not")
    } else {
        None
    }
}

/// The smaller of two optional positions.
pub open spec fn min_opt(a: Option<int>, b: Option<int>) -> Option<int> {
    match (a, b) {
        (Some(x), Some(y)) => Some(if x <= y {
            x
        } else {
            y
        }),
        (Some(x), None) => Some(x),
        (None, _) => b,
    }
}

fn min_pos(a: Option<usize>, b: Option<usize>) -> (r: Option<usize>)
    ensures
        opt_int(r) == min_opt(opt_int(a), opt_int(b)),
{
    match (a, b) {
        (Some(x), Some(y)) => Some(if x <= y {
            x
        } else {
            y
        }),
        (Some(x), None) => Some(x),
        (None, _) => b,
    }
}

pub open spec fn opt_int(o: Option<usize>) -> Option<int> {
    match o {
        Some(x) => Some(x as int),
        None => None,
    }
}

fn find_pos(s: &Vec<char>, p: &str) -> (r: Option<usize>)
    ensures
        opt_int(r) == find(s@, p@),
{
    find_str(s, p)
}

/// Where a ranking instruction starts: the first of `rank by`, `sort by`
/// or `order by`.
pub open spec fn rank_marker(s: Seq<char>) -> Option<int> {
    min_opt(find(s, "rank by"@), min_opt(find(s, "sort by"@), find(s, "order by"@)))
}

fn rank_marker_pos(s: &Vec<char>) -> (r: Option<usize>)
    ensures
        opt_int(r) == rank_marker(s@),
{
    min_pos(find_pos(s, "rank by"), min_pos(find_pos(s, "sort by"), find_pos(s, "order by")))
}

/// Number of keywords that name a predicate field.
pub open spec fn keyword_count(f: ScreenerPredicateField) -> int {
    match f {
        ScreenerPredicateField::RevenueGrowth => 2,
        ScreenerPredicateField::EstimateRevision => 3,
        ScreenerPredicateField::Rsi => 1,
        ScreenerPredicateField::PriceChange => 2,
    }
}

/// The keywords that name a predicate field, in the order they are tried.
pub open spec fn field_keyword(f: ScreenerPredicateField, k: int) -> Seq<char> {
    match f {
        ScreenerPredicateField::RevenueGrowth => if k == 0 {
            "revenue growth"@
        } else {
            "growth"@
        },
        ScreenerPredicateField::EstimateRevision => if k == 0 {
            "estimate revision"@
        } else if k == 1 {
            "estimate revisions"@
        } else {
            "revisions"@
        },
        ScreenerPredicateField::Rsi => "rsi"@,
        ScreenerPredicateField::PriceChange => if k == 0 {
            "price change"@
        } else {
            "momentum"@
        },
    }
}

fn keyword_of(f: ScreenerPredicateField, k: usize) -> (r: &'static str)
    requires
        k < keyword_count(f),
    ensures
        r@ == field_keyword(f, k as int),
{
    match f {
        ScreenerPredicateField::RevenueGrowth => if k == 0 {
            "revenue growth"
        } else {
            "growth"
        },
        ScreenerPredicateField::EstimateRevision => if k == 0 {
            "estimate revision"
        } else if k == 1 {
            "estimate revisions"
        } else {
            "revisions"
        },
        ScreenerPredicateField::Rsi => "rsi",
        ScreenerPredicateField::PriceChange => if k == 0 {
            "price change"
        } else {
            "momentum"
        },
    }
}

fn keyword_total(f: ScreenerPredicateField) -> (r: usize)
    ensures
        r == keyword_count(f),
{
    match f {
        ScreenerPredicateField::RevenueGrowth => 2,
        ScreenerPredicateField::EstimateRevision => 3,
        ScreenerPredicateField::Rsi => 1,
        ScreenerPredicateField::PriceChange => 2,
    }
}

/// The keyword of the field (from the `k`-th on) that occurs first in the
/// text, and where; on a tie the earlier keyword of the list.
pub open spec fn pick_keyword(t: Seq<char>, f: ScreenerPredicateField, k: int) -> Option<(int, int)>
    decreases keyword_count(f) - k,
{
    if k < 0 || k >= keyword_count(f) {
        None
    } else {
        let rest = pick_keyword(t, f, k + 1);
        match find(t, field_keyword(f, k)) {
            Some(i) => match rest {
                Some((k2, i2)) => if i <= i2 {
                    Some((k, i))
                } else {
                    rest
                },
                None => Some((k, i)),
            },
            None => rest,
        }
    }
}

/// Some keyword of the field (from the `k`-th on) occurs in the text.
pub open spec fn any_keyword(s: Seq<char>, f: ScreenerPredicateField, k: int) -> bool
    decreases keyword_count(f) - k,
{
    if k < 0 || k >= keyword_count(f) {
        false
    } else {
        contains(s, field_keyword(f, k)) || any_keyword(s, f, k + 1)
    }
}

pub proof fn lemma_find_in_text(s: Seq<char>, p: Seq<char>)
    ensures
        find(s, p) matches Some(i) ==> 0 <= i && i + p.len() <= s.len(),
{
    lemma_find_from_bounds(s, p, 0);
}

fn pick_keyword_exec(t: &Vec<char>, f: ScreenerPredicateField) -> (r: Option<(usize, usize)>)
    ensures
        match r {
            Some((k, i)) => pick_keyword(t@, f, 0) == Some((k as int, i as int)) && k
                < keyword_count(f) && i + field_keyword(f, k as int).len() <= t@.len(),
            None => pick_keyword(t@, f, 0) is None,
        },
{
    let n = keyword_total(f);
    let mut k: usize = n;
    let mut best: Option<(usize, usize)> = None;
    while k > 0
        invariant
            k <= n == keyword_count(f),
            match best {
                Some((bk, bi)) => pick_keyword(t@, f, k as int) == Some((bk as int, bi as int))
                    && bk < n && bi + field_keyword(f, bk as int).len() <= t@.len(),
                None => pick_keyword(t@, f, k as int) is None,
            },
        decreases k,
    {
        k = k - 1;
        let kw = keyword_of(f, k);
        let found = find_pos(t, kw);
        proof {
            lemma_find_in_text(t@, kw@);
        }
        match found {
            Some(i) => {
                match best {
                    Some((_, bi)) => {
                        if i <= bi {
                            best = Some((k, i));
                        }
                    },
                    None => {
                        best = Some((k, i));
                    },
                }
            },
            None => {},
        }
    }
    best
}

fn any_keyword_exec(s: &Vec<char>, f: ScreenerPredicateField) -> (r: bool)
    ensures
        r == any_keyword(s@, f, 0),
{
    let n = keyword_total(f);
    let mut k: usize = n;
    let mut any = false;
    while k > 0
        invariant
            k <= n == keyword_count(f),
            any == any_keyword(s@, f, k as int),
        decreases k,
    {
        k = k - 1;
        any = contains_str(s, keyword_of(f, k)) || any;
    }
    any
}

/// Position of the first comma or semicolon at or after `i`.
pub open spec fn sep_from(s: Seq<char>, i: int) -> Option<int>
    decreases s.len() - i,
{
    if i < 0 || i >= s.len() {
        None
    } else if s[i] == ',' || s[i] == ';' {
        Some(i)
    } else {
        sep_from(s, i + 1)
    }
}

/// The text up to its first comma or semicolon.
pub open spec fn first_clause(s: Seq<char>) -> Seq<char> {
    match sep_from(s, 0) {
        Some(i) => s.subrange(0, i),
        None => s,
    }
}

fn sep_index(s: &Vec<char>, from: usize) -> (r: Option<usize>)
    ensures
        opt_int(r) == sep_from(s@, from as int),
        r matches Some(i) ==> from <= i < s@.len(),
{
    let mut i = from;
    while i < s.len()
        invariant
            from <= i,
            sep_from(s@, from as int) == sep_from(s@, i as int),
        decreases s@.len() - i,
    {
        if s[i] == ',' || s[i] == ';' {
            return Some(i);
        }
        i = i + 1;
    }
    None
}

fn first_clause_of(s: &Vec<char>) -> (r: Vec<char>)
    ensures
        r@ == first_clause(s@),
{
    match sep_index(s, 0) {
        Some(i) => slice(s, 0, i),
        None => {
            let r = slice(s, 0, s.len());
            assert(r@ =~= s@);
            r
        },
    }
}

/// End of a marker occurrence found by `rfind`, or zero.
pub open spec fn end_after(o: Option<int>, m: Seq<char>) -> int {
    match o {
        Some(q) => q + m.len(),
        None => 0,
    }
}

pub open spec fn max_int(a: int, b: int) -> int {
    if a >= b {
        a
    } else {
        b
    }
}

/// Start of the clause holding position `index`: just after the last
/// ` and `, ` or `, comma or semicolon before it.
pub open spec fn clause_start(t: Seq<char>, index: int) -> int {
    let u = t.subrange(0, index);
    max_int(
        max_int(end_after(rfind(u, " and "@), " and "@), end_after(rfind(u, " or "@), " or "@)),
        max_int(end_after(rfind(u, ","@), ","@), end_after(rfind(u, ";"@), ";"@)),
    )
}

/// Length of the clause text from a position: up to the first ` and `,
/// ` or `, comma or semicolon.
pub open spec fn clause_len(s: Seq<char>) -> int {
    match min_opt(
        min_opt(find(s, " and "@), find(s, " or "@)),
        min_opt(find(s, ","@), find(s, ";"@)),
    ) {
        Some(e) => e,
        None => s.len() as int,
    }
}

/// The comparison a clause asks for: the text of the clause before the
/// field name and from the field name to the clause end decide it.
pub open spec fn operator_for(before: Seq<char>, after: Seq<char>) -> ScreenerOperator {
    if contains(before, "<="@) || contains(after, "<="@) || contains(before, "at most"@)
        || contains(after, "at most"@) {
        ScreenerOperator::LessOrEqual
    } else if contains(before, ">="@) || contains(after, ">="@) || contains(before, "at least"@)
        || contains(after, "at least"@) {
        ScreenerOperator::GreaterOrEqual
    } else if contains(before, "below"@) || contains(before, "under"@) || contains(before, "less"@)
        || contains(before, "fewer than"@) || contains(before, "<"@) || contains(after, "below"@)
        || contains(after, "under"@) || contains(after, "less"@) || contains(after, "fewer than"@)
        || contains(after, "<"@) {
        ScreenerOperator::LessThan
    } else if contains(before, "or more"@) || contains(after, "or more"@) {
        ScreenerOperator::GreaterOrEqual
    } else if contains(before, "or less"@) || contains(after, "or less"@) {
        ScreenerOperator::LessOrEqual
    } else {
        ScreenerOperator::GreaterThan
    }
}

/// The comparison for the field named at `index` of the text.
pub open spec fn operator_at(t: Seq<char>, index: int) -> ScreenerOperator {
    let start = clause_start(t, index);
    let rest = t.subrange(index, t.len() as int);
    operator_for(t.subrange(start, index), rest.subrange(0, clause_len(rest)))
}

proof fn lemma_rfind_bounds(s: Seq<char>, p: Seq<char>, q: int)
    ensures
        rfind_from(s, p, q) matches Some(i) ==> 0 <= i <= q && occurs_at(s, p, i),
    decreases q + 1,
{
    if q >= 0 && !occurs_at(s, p, q) {
        lemma_rfind_bounds(s, p, q - 1);
    }
}

fn end_after_exec(o: Option<usize>, m: &str, Ghost(u): Ghost<Seq<char>>) -> (r: usize)
    requires
        opt_int(o) == rfind(u, m@),
        u.len() <= usize::MAX,
    ensures
        r == end_after(rfind(u, m@), m@),
        r <= u.len(),
{
    proof {
        lemma_rfind_bounds(u, m@, u.len() - m@.len());
    }
    match o {
        Some(q) => {
            let mv = chars(m);
            q + mv.len()
        },
        None => 0,
    }
}

fn operator_before(t: &Vec<char>, index: usize) -> (r: ScreenerOperator)
    requires
        index <= t@.len(),
    ensures
        r == operator_at(t@, index as int),
{
    let ghost u = t@.subrange(0, index as int);
    let a = end_after_exec(rfind_before(t, " and ", index), " and ", Ghost(u));
    let b = end_after_exec(rfind_before(t, " or ", index), " or ", Ghost(u));
    let c = end_after_exec(rfind_before(t, ",", index), ",", Ghost(u));
    let d = end_after_exec(rfind_before(t, ";", index), ";", Ghost(u));
    let ab = if a >= b {
        a
    } else {
        b
    };
    let cd = if c >= d {
        c
    } else {
        d
    };
    let start = if ab >= cd {
        ab
    } else {
        cd
    };
    assert(start == clause_start(t@, index as int));
    let rest = slice(t, index, t.len());
    let e = min_pos(
        min_pos(find_pos(&rest, " and "), find_pos(&rest, " or ")),
        min_pos(find_pos(&rest, ","), find_pos(&rest, ";")),
    );
    proof {
        lemma_find_in_text(rest@, " and "@);
        lemma_find_in_text(rest@, " or "@);
        lemma_find_in_text(rest@, ","@);
        lemma_find_in_text(rest@, ";"@);
    }
    let end = match e {
        Some(x) => x,
        None => rest.len(),
    };
    assert(end == clause_len(rest@));
    let before = slice(t, start, index);
    let after = slice(&rest, 0, end);
    if contains_str(&before, "<=") || contains_str(&after, "<=") || contains_str(&before, "at most")
        || contains_str(&after, "at most") {
        ScreenerOperator::LessOrEqual
    } else if contains_str(&before, ">=") || contains_str(&after, ">=") || contains_str(
        &before,
        "at least",
    ) || contains_str(&after, "at least") {
        ScreenerOperator::GreaterOrEqual
    } else if contains_str(&before, "below") || contains_str(&before, "under") || contains_str(
        &before,
        "less",
    ) || contains_str(&before, "fewer than") || contains_str(&before, "<") || contains_str(
        &after,
        "below",
    ) || contains_str(&after, "under") || contains_str(&after, "less") || contains_str(
        &after,
        "fewer than",
    ) || contains_str(&after, "<") {
        ScreenerOperator::LessThan
    } else if contains_str(&before, "or more") || contains_str(&after, "or more") {
        ScreenerOperator::GreaterOrEqual
    } else if contains_str(&before, "or less") || contains_str(&after, "or less") {
        ScreenerOperator::LessOrEqual
    } else {
        ScreenerOperator::GreaterThan
    }
}

// ----------------------------------------------------------------------------
// Thresholds
// ----------------------------------------------------------------------------

/// A normalized decimal divided by one hundred, in normal form: the point
/// moves two places to the left.
pub open spec fn percent_text(n: Seq<char>) -> Seq<char> {
    let u = unsigned_part(n);
    let digits = whole_of(u) + fraction_of(u);
    let ts = fraction_of(u).len() + 2;
    let padded = if digits.len() <= ts {
        zeros((ts + 1 - digits.len()) as nat) + digits
    } else {
        digits
    };
    let split = padded.len() - ts;
    let w = trimmed_whole(padded.subrange(0, split));
    let f = trim_end(padded.subrange(split, padded.len() as int), '0');
    let value = if f.len() == 0 {
        w
    } else {
        w + seq!['.'] + f
    };
    if is_negative_text(n) && value != seq!['0'] {
        seq!['-'] + value
    } else {
        value
    }
}

/// A percentage as a decimal fraction, when the text is an accepted decimal.
pub open spec fn percent_of(raw: Seq<char>) -> Option<Seq<char>> {
    if decimal_accepts(raw) {
        Some(percent_text(decimal_normal(raw)))
    } else {
        None
    }
}

/// The threshold a raw number gives: a percentage (when the field is one, or
/// the number ends in `%`) or the normalized decimal itself.
pub open spec fn threshold_of(raw: Seq<char>, percent: bool) -> Option<Seq<char>> {
    if percent || (raw.len() > 0 && raw.last() == '%') {
        percent_of(trim_end(raw, '%'))
    } else if decimal_accepts(raw) {
        Some(decimal_normal(raw))
    } else {
        None
    }
}

/// Appends a text to a string.
pub fn append(s: &mut String, t: &str)
    ensures
        final(s)@ == old(s)@ + t@,
{
    push_chars(s, &chars(t));
}

/// Normalizes a decimal given as characters.
fn normalize_chars(v: &Vec<char>) -> (r: Option<Vec<char>>)
    ensures
        r is Some <==> decimal_accepts(v@),
        r matches Some(t) ==> t@ == decimal_normal(v@),
{
    let s = string_of_all(v);
    match normalize_decimal_text(s.as_str()) {
        Some(t) => Some(chars(t.as_str())),
        None => None,
    }
}

fn zero_run(k: usize) -> (r: Vec<char>)
    ensures
        r@ == zeros(k as nat),
{
    let mut r: Vec<char> = Vec::new();
    let mut i: usize = 0;
    while i < k
        invariant
            i <= k,
            r@ == zeros(i as nat),
        decreases k - i,
    {
        r.push('0');
        i = i + 1;
        assert(r@ =~= zeros(i as nat));
    }
    r
}

#[verifier::spinoff_prover]
#[verifier::rlimit(40)]
fn percent_to_decimal(raw: &Vec<char>) -> (r: Option<Vec<char>>)
    ensures
        match r {
            Some(v) => percent_of(raw@) == Some(v@),
            None => percent_of(raw@) is None,
        },
{
    let n = match normalize_chars(raw) {
        Some(n) => n,
        None => {
            return None;
        },
    };
    let negative = n.len() > 0 && n[0] == '-';
    let u = if negative {
        slice(&n, 1, n.len())
    } else {
        slice(&n, 0, n.len())
    };
    assert(u@ == unsigned_part(n@)) by {
        if negative {
            assert(n@.subrange(1, n@.len() as int) =~= n@.drop_first());
        } else {
            assert(n@.subrange(0, n@.len() as int) =~= n@);
        }
    }
    let (whole, fraction) = split_or_whole(&u, '.');
    let mut digits = whole;
    push_all(&mut digits, &fraction);
    assert(digits@ == whole_of(u@) + fraction_of(u@));
    proof {
        lemma_utf8_len_le_4(raw@);
        lemma_normal_len(raw@);
        lemma_index_of(u@, '.');
        assert(digits@.len() <= 128);
    }
    let ts = fraction.len() + 2;
    let padded = if digits.len() <= ts {
        let mut p = zero_run(ts + 1 - digits.len());
        push_all(&mut p, &digits);
        p
    } else {
        digits
    };
    let split = padded.len() - ts;
    let w = whole_key(&slice(&padded, 0, split));
    let f = trim_end_char(&slice(&padded, split, padded.len()), '0');
    let mut value = w;
    if f.len() > 0 {
        value.push('.');
        push_all(&mut value, &f);
    }
    let is_zero = value.len() == 1 && value[0] == '0';
    proof {
        if value@.len() == 1 && value@[0] == '0' {
            assert(value@ =~= seq!['0']);
        }
    }
    if negative && !is_zero {
        let mut out: Vec<char> = Vec::new();
        out.push('-');
        push_all(&mut out, &value);
        assert(out@ =~= seq!['-'] + value@);
        Some(out)
    } else {
        Some(value)
    }
}

// ----------------------------------------------------------------------------
// One predicate
// ----------------------------------------------------------------------------

/// Why parsing stopped without a result: an input the request contract
/// refuses, or a 96-byte cut that falls inside a multi-byte character (where
/// slicing the text panics).
#[derive(Clone, Copy, Debug, PartialEq, Eq, Structural)]
pub enum ParseStop {
    Invalid,
    SplitChar,
}

/// The variant name of a predicate field (its `Debug` text).
pub open spec fn field_name(f: ScreenerPredicateField) -> Seq<char> {
    match f {
        ScreenerPredicateField::RevenueGrowth => "RevenueGrowth"@,
        ScreenerPredicateField::EstimateRevision => "EstimateRevision"@,
        ScreenerPredicateField::Rsi => "Rsi"@,
        ScreenerPredicateField::PriceChange => "PriceChange"@,
    }
}

pub fn field_str(f: ScreenerPredicateField) -> (r: &'static str)
    ensures
        r@ == field_name(f),
{
    match f {
        ScreenerPredicateField::RevenueGrowth => "RevenueGrowth",
        ScreenerPredicateField::EstimateRevision => "EstimateRevision",
        ScreenerPredicateField::Rsi => "Rsi",
        ScreenerPredicateField::PriceChange => "PriceChange",
    }
}

/// The threshold a field takes when the text names it without a number.
pub open spec fn default_threshold(f: ScreenerPredicateField) -> Seq<char> {
    match f {
        ScreenerPredicateField::RevenueGrowth => "0.15"@,
        ScreenerPredicateField::EstimateRevision => "0"@,
        ScreenerPredicateField::Rsi => "70"@,
        ScreenerPredicateField::PriceChange => "0"@,
    }
}

fn default_str(f: ScreenerPredicateField) -> (r: &'static str)
    ensures
        r@ == default_threshold(f),
{
    match f {
        ScreenerPredicateField::RevenueGrowth => "0.15",
        ScreenerPredicateField::EstimateRevision => "0",
        ScreenerPredicateField::Rsi => "70",
        ScreenerPredicateField::PriceChange => "0",
    }
}

/// Fields whose numbers are percentages.
pub open spec fn percent_field(f: ScreenerPredicateField) -> bool {
    f != ScreenerPredicateField::Rsi
}

/// What the text says of one field.
pub ghost enum PredicateStep {
    Absent,
    Unsupported(Seq<char>),
    Found(ScreenerOperator, Seq<char>),
    Stop(ParseStop),
}

/// The predicate for a raw number found after the field name.
pub open spec fn found_step(t: Seq<char>, index: int, f: ScreenerPredicateField, raw: Seq<char>) -> PredicateStep {
    match threshold_of(raw, percent_field(f)) {
        Some(th) => PredicateStep::Found(operator_at(t, index), th),
        None => PredicateStep::Stop(ParseStop::Invalid),
    }
}

/// What the text says of a field, from the clause that starts where the
/// field is first named: nothing; an unsupported condition (repeated, with
/// an unsupported comparison, a number without a comparison or a comparison
/// without a number); or a comparison against a threshold, the field's
/// default threshold when no number is written.
pub open spec fn predicate_step(t: Seq<char>, f: ScreenerPredicateField) -> PredicateStep {
    match pick_keyword(t, f, 0) {
        None => PredicateStep::Absent,
        Some((k, index)) => {
            let remaining = t.subrange(index + field_keyword(f, k).len(), t.len() as int);
            let filter_end = match rank_marker(remaining) {
                Some(e) => e,
                None => remaining.len() as int,
            };
            if any_keyword(remaining.subrange(0, filter_end), f, 0) {
                PredicateStep::Unsupported(
                    "Multiple "@ + field_name(f) + " conditions are unsupported."@,
                )
            } else {
                match cut_prefix(t.subrange(index, t.len() as int), 96) {
                    None => PredicateStep::Stop(ParseStop::SplitChar),
                    Some(suffix) => {
                        let clause = first_clause(suffix);
                        match unsupported_op(clause) {
                            Some(op) => PredicateStep::Unsupported(
                                "Unsupported operator '"@ + op + "' for "@ + field_name(f) + "."@,
                            ),
                            None => match number_after(suffix) {
                                Some(v) => if explicit_operator(clause) {
                                    found_step(t, index, f, v)
                                } else {
                                    PredicateStep::Unsupported(
                                        "Unsupported operator for "@ + field_name(f) + "."@,
                                    )
                                },
                                None => if explicit_operator(clause) {
                                    PredicateStep::Unsupported(
                                        "Missing threshold for "@ + field_name(f) + "."@,
                                    )
                                } else {
                                    found_step(t, index, f, default_threshold(f))
                                },
                            },
                        }
                    },
                }
            }
        },
    }
}

/// The field, comparison and threshold of each predicate.
pub open spec fn predicate_views(v: Seq<ScreenerPredicate>) -> Seq<
    (ScreenerPredicateField, ScreenerOperator, Seq<char>),
> {
    v.map_values(|p: ScreenerPredicate| (p.field, p.operator, p.threshold@))
}

fn message(a: &str, b: &str, c: &str) -> (r: String)
    ensures
        r@ == a@ + b@ + c@,
{
    let mut m = owned(a);
    append(&mut m, b);
    append(&mut m, c);
    m
}

fn threshold_exec(raw: &Vec<char>, percent: bool) -> (r: Option<Vec<char>>)
    ensures
        match r {
            Some(v) => threshold_of(raw@, percent) == Some(v@),
            None => threshold_of(raw@, percent) is None,
        },
{
    if percent || (raw.len() > 0 && raw[raw.len() - 1] == '%') {
        percent_to_decimal(&trim_end_char(raw, '%'))
    } else {
        normalize_chars(raw)
    }
}

/// Reads the condition on one field; a found predicate is appended.
fn add_predicate(
    t: &Vec<char>,
    f: ScreenerPredicateField,
    predicates: &mut Vec<ScreenerPredicate>,
) -> (r: Result<Option<String>, ParseStop>)
    ensures
        match predicate_step(t@, f) {
            PredicateStep::Absent => r == Ok::<Option<String>, ParseStop>(None)
                && final(predicates)@ == old(predicates)@,
            PredicateStep::Unsupported(m) => r matches Ok(Some(s)) && s@ == m
                && final(predicates)@ == old(predicates)@,
            PredicateStep::Found(op, th) => r == Ok::<Option<String>, ParseStop>(None)
                && predicate_views(final(predicates)@) == predicate_views(old(predicates)@).push(
                (f, op, th),
            ),
            PredicateStep::Stop(e) => r == Err::<Option<String>, ParseStop>(e),
        },
{
    let picked = pick_keyword_exec(t, f);
    let (k, index) = match picked {
        Some(p) => p,
        None => {
            return Ok(None);
        },
    };
    assert(pick_keyword(t@, f, 0) == Some((k as int, index as int)));
    let kw = chars(keyword_of(f, k));
    let tl = t.len();
    let kl = kw.len();
    assert(index + kl <= tl);
    let remaining = slice(t, index + kl, tl);
    let filter_end = match rank_marker_pos(&remaining) {
        Some(e) => e,
        None => remaining.len(),
    };
    proof {
        lemma_find_in_text(remaining@, "rank by"@);
        lemma_find_in_text(remaining@, "sort by"@);
        lemma_find_in_text(remaining@, "order by"@);
    }
    assert(filter_end <= remaining.len());
    if any_keyword_exec(&slice(&remaining, 0, filter_end), f) {
        return Ok(Some(message("Multiple ", field_str(f), " conditions are unsupported.")));
    }
    let suffix = match cut_bytes(t, index, 96) {
        Some(s) => s,
        None => {
            return Err(ParseStop::SplitChar);
        },
    };
    let clause = first_clause_of(&suffix);
    match unsupported_operator(&clause) {
        Some(op) => {
            let mut m = message("Unsupported operator '", op, "' for ");
            append(&mut m, field_str(f));
            append(&mut m, ".");
            return Ok(Some(m));
        },
        None => {},
    }
    let explicit = has_explicit_operator(&clause);
    let raw = match numeric_after(&suffix) {
        Some(v) => {
            if explicit {
                v
            } else {
                return Ok(Some(message("Unsupported operator for ", field_str(f), ".")));
            }
        },
        None => {
            if explicit {
                return Ok(Some(message("Missing threshold for ", field_str(f), ".")));
            } else {
                chars(default_str(f))
            }
        },
    };
    let threshold = match threshold_exec(&raw, f != ScreenerPredicateField::Rsi) {
        Some(th) => th,
        None => {
            return Err(ParseStop::Invalid);
        },
    };
    let operator = operator_before(t, index);
    let ghost before = predicates@;
    predicates.push(
        ScreenerPredicate { field: f, operator, threshold: string_of_all(&threshold) },
    );
    proof {
        assert(predicate_views(predicates@) =~= predicate_views(before).push(
            (f, operator, threshold@),
        ));
    }
    Ok(None)
}

// ----------------------------------------------------------------------------
// Unsupported fields
// ----------------------------------------------------------------------------

/// The first of two optional reasons.
pub open spec fn first_some(a: Option<Seq<char>>, b: Option<Seq<char>>) -> Option<Seq<char>> {
    match a {
        Some(x) => Some(x),
        None => b,
    }
}

/// The clause names one of the fields the screener can filter on.
pub open spec fn names_supported_field(c: Seq<char>) -> bool {
    ||| contains(c, "revenue growth"@)
    ||| contains(c, "growth"@)
    ||| contains(c, "estimate revision"@)
    ||| contains(c, "revisions"@)
    ||| contains(c, "rsi"@)
    ||| contains(c, "price change"@)
    ||| contains(c, "momentum"@)
}

/// The comparison word a clause uses, for the message about it.
pub open spec fn comparison_word(c: Seq<char>) -> Seq<char> {
    if contains(c, "above"@) {
        "above"@
    } else if contains(c, "below"@) {
        "below"@
    } else if contains(c, "over"@) {
        "over"@
    } else if contains(c, "under"@) {
        "under"@
    } else if contains(c, "greater"@) {
        "greater"@
    } else if contains(c, "less"@) {
        "less"@
    } else if contains(c, "at least"@) {
        "at least"@
    } else if contains(c, "at most"@) {
        "at most"@
    } else if contains(c, "more than"@) {
        "more than"@
    } else if contains(c, "fewer than"@) {
        "fewer than"@
    } else {
        "comparison"@
    }
}

/// A clause (trimmed) that compares something other than a supported field.
pub open spec fn clause_problem(raw: Seq<char>) -> Option<Seq<char>> {
    let c = trim_ws(raw);
    if explicit_operator(c) && !names_supported_field(c) {
        Some("Unsupported filter field in clause '"@ + c + "' ("@ + comparison_word(c) + ")."@)
    } else {
        None
    }
}

/// The first problem among the ` or `-separated parts of a text.
pub open spec fn or_problem(s: Seq<char>) -> Option<Seq<char>>
    decreases s.len(),
{
    match find(s, " or "@) {
        Some(i) => {
            proof {
                lemma_find_in_text(s, " or "@);
                reveal_strlit(" or ");
            }
            first_some(
                clause_problem(s.subrange(0, i)),
                or_problem(s.subrange(i + " or "@.len(), s.len() as int)),
            )
        },
        None => clause_problem(s),
    }
}

/// The first problem among the ` and `-separated parts of a text.
pub open spec fn and_problem(s: Seq<char>) -> Option<Seq<char>>
    decreases s.len(),
{
    match find(s, " and "@) {
        Some(i) => {
            proof {
                lemma_find_in_text(s, " and "@);
                reveal_strlit(" and ");
            }
            first_some(
                or_problem(s.subrange(0, i)),
                and_problem(s.subrange(i + " and "@.len(), s.len() as int)),
            )
        },
        None => or_problem(s),
    }
}

pub proof fn lemma_sep_from(s: Seq<char>, i: int)
    requires
        0 <= i,
    ensures
        sep_from(s, i) matches Some(j) ==> i <= j < s.len(),
    decreases s.len() - i,
{
    if i < s.len() && !(s[i] == ',' || s[i] == ';') {
        lemma_sep_from(s, i + 1);
    }
}

/// The first problem among the comma- or semicolon-separated parts.
pub open spec fn comma_problem(s: Seq<char>) -> Option<Seq<char>>
    decreases s.len(),
{
    match sep_from(s, 0) {
        Some(i) => {
            proof {
                lemma_sep_from(s, 0);
            }
            first_some(and_problem(s.subrange(0, i)), comma_problem(s.subrange(i + 1, s.len() as int)))
        },
        None => and_problem(s),
    }
}

/// Fields the screener names as unsupported wherever they appear.
pub open spec fn unsupported_field_term(t: Seq<char>) -> Option<Seq<char>> {
    if contains(t, "p/e"@) || contains(t, "pe ratio"@) || contains(t, "price/earnings"@)
        || contains(t, "price to earnings"@) {
        Some("price-to-earnings"@)
    } else if contains(t, "market cap"@) || contains(t, "market capitalization"@) {
        Some("market capitalization"@)
    } else if contains(t, "dividend"@) {
        Some("dividend"@)
    } else if contains(t, "volatility"@) {
        Some("volatility"@)
    } else if contains(t, "volume"@) {
        Some("volume"@)
    } else if contains(t, "sector"@) {
        Some("sector"@)
    } else {
        None
    }
}

/// Why the text asks for a filter field the screener does not have.
pub open spec fn filter_reason(t: Seq<char>) -> Option<Seq<char>> {
    match comma_problem(t) {
        Some(m) => Some(m),
        None => match unsupported_field_term(t) {
            Some(label) => Some("Unsupported filter field: "@ + label + "."@),
            None => None,
        },
    }
}

fn comparison_word_exec(c: &Vec<char>) -> (r: &'static str)
    ensures
        r@ == comparison_word(c@),
{
    if contains_str(c, "above") {
        "above"
    } else if contains_str(c, "below") {
        "below"
    } else if contains_str(c, "over") {
        "over"
    } else if contains_str(c, "under") {
        "under"
    } else if contains_str(c, "greater") {
        "greater"
    } else if contains_str(c, "less") {
        "less"
    } else if contains_str(c, "at least") {
        "at least"
    } else if contains_str(c, "at most") {
        "at most"
    } else if contains_str(c, "more than") {
        "more than"
    } else if contains_str(c, "fewer than") {
        "fewer than"
    } else {
        "comparison"
    }
}

fn clause_problem_exec(raw: &Vec<char>) -> (r: Option<String>)
    ensures
        opt_view(r) == clause_problem(raw@),
{
    let c = trim_whitespace(raw);
    let supported = contains_str(&c, "revenue growth") || contains_str(&c, "growth")
        || contains_str(&c, "estimate revision") || contains_str(&c, "revisions") || contains_str(
        &c,
        "rsi",
    ) || contains_str(&c, "price change") || contains_str(&c, "momentum");
    if has_explicit_operator(&c) && !supported {
        let mut m = owned("Unsupported filter field in clause '");
        push_chars(&mut m, &c);
        append(&mut m, "' (");
        append(&mut m, comparison_word_exec(&c));
        append(&mut m, ").");
        Some(m)
    } else {
        None
    }
}

/// The view of an optional string.
pub open spec fn opt_view(o: Option<String>) -> Option<Seq<char>> {
    match o {
        Some(s) => Some(s@),
        None => None,
    }
}

fn or_problem_exec(s: &Vec<char>) -> (r: Option<String>)
    ensures
        opt_view(r) == or_problem(s@),
{
    let pat = chars(" or ");
    proof {
        reveal_strlit(" or ");
    }
    let mut rest = slice(s, 0, s.len());
    assert(rest@ =~= s@);
    loop
        invariant
            pat@ == " or "@,
            pat@.len() == 4,
            or_problem(s@) == or_problem(rest@),
        decreases rest@.len(),
    {
        match find_in(&rest, &pat) {
            Some(i) => {
                proof {
                    lemma_find_in_text(rest@, " or "@);
                }
                match clause_problem_exec(&slice(&rest, 0, i)) {
                    Some(m) => {
                        return Some(m);
                    },
                    None => {},
                }
                let rl = rest.len();
                assert(i + 4 <= rl);
                rest = slice(&rest, i + 4, rl);
            },
            None => {
                return clause_problem_exec(&rest);
            },
        }
    }
}

fn and_problem_exec(s: &Vec<char>) -> (r: Option<String>)
    ensures
        opt_view(r) == and_problem(s@),
{
    let pat = chars(" and ");
    proof {
        reveal_strlit(" and ");
    }
    let mut rest = slice(s, 0, s.len());
    assert(rest@ =~= s@);
    loop
        invariant
            pat@ == " and "@,
            pat@.len() == 5,
            and_problem(s@) == and_problem(rest@),
        decreases rest@.len(),
    {
        match find_in(&rest, &pat) {
            Some(i) => {
                proof {
                    lemma_find_in_text(rest@, " and "@);
                }
                match or_problem_exec(&slice(&rest, 0, i)) {
                    Some(m) => {
                        return Some(m);
                    },
                    None => {},
                }
                let rl = rest.len();
                assert(i + 5 <= rl);
                rest = slice(&rest, i + 5, rl);
            },
            None => {
                return or_problem_exec(&rest);
            },
        }
    }
}

fn comma_problem_exec(s: &Vec<char>) -> (r: Option<String>)
    ensures
        opt_view(r) == comma_problem(s@),
{
    let mut rest = slice(s, 0, s.len());
    assert(rest@ =~= s@);
    loop
        invariant
            comma_problem(s@) == comma_problem(rest@),
        decreases rest@.len(),
    {
        match sep_index(&rest, 0) {
            Some(i) => {
                match and_problem_exec(&slice(&rest, 0, i)) {
                    Some(m) => {
                        return Some(m);
                    },
                    None => {},
                }
                let rl = rest.len();
                rest = slice(&rest, i + 1, rl);
            },
            None => {
                return and_problem_exec(&rest);
            },
        }
    }
}

fn unsupported_filter_reason(t: &Vec<char>) -> (r: Option<String>)
    ensures
        opt_view(r) == filter_reason(t@),
{
    match comma_problem_exec(t) {
        Some(m) => {
            return Some(m);
        },
        None => {},
    }
    let label = if contains_str(t, "p/e") || contains_str(t, "pe ratio") || contains_str(
        t,
        "price/earnings",
    ) || contains_str(t, "price to earnings") {
        "price-to-earnings"
    } else if contains_str(t, "market cap") || contains_str(t, "market capitalization") {
        "market capitalization"
    } else if contains_str(t, "dividend") {
        "dividend"
    } else if contains_str(t, "volatility") {
        "volatility"
    } else if contains_str(t, "volume") {
        "volume"
    } else if contains_str(t, "sector") {
        "sector"
    } else {
        return None;
    };
    Some(message("Unsupported filter field: ", label, "."))
}

// ----------------------------------------------------------------------------
// Universe, ranking and limit
// ----------------------------------------------------------------------------

/// The text with hyphens and underscores read as spaces.
pub open spec fn spaced(t: Seq<char>) -> Seq<char> {
    t.map_values(|c: char| if c == '-' || c == '_' {
        ' '
    } else {
        c
    })
}

/// The universe terms the screener refuses: the term, its label, and
/// whether it must stand as a whole word (terms of one word) rather than
/// anywhere in the text (terms with a space).
pub open spec fn universe_term(k: int) -> (Seq<char>, Seq<char>, bool) {
    if k == 0 {
        ("small cap"@, "small-cap"@, false)
    } else if k == 1 {
        ("mid cap"@, "mid-cap"@, false)
    } else if k == 2 {
        ("micro cap"@, "micro-cap"@, false)
    } else if k == 3 {
        ("european"@, "European"@, true)
    } else if k == 4 {
        ("europe"@, "European"@, true)
    } else if k == 5 {
        ("asia"@, "Asian"@, true)
    } else if k == 6 {
        ("asian"@, "Asian"@, true)
    } else if k == 7 {
        ("international"@, "international"@, true)
    } else if k == 8 {
        ("global"@, "global"@, true)
    } else if k == 9 {
        ("emerging market"@, "emerging-market"@, false)
    } else if k == 10 {
        ("forex"@, "forex"@, true)
    } else if k == 11 {
        ("foreign exchange"@, "foreign-exchange"@, false)
    } else if k == 12 {
        ("futures"@, "futures"@, true)
    } else if k == 13 {
        ("options"@, "options"@, true)
    } else if k == 14 {
        ("biotech"@, "biotech"@, true)
    } else if k == 15 {
        ("healthcare"@, "healthcare"@, true)
    } else if k == 16 {
        ("health care"@, "healthcare"@, false)
    } else if k == 17 {
        ("financial"@, "financials"@, true)
    } else if k == 18 {
        ("finance"@, "financials"@, true)
    } else if k == 19 {
        ("banking"@, "banking"@, true)
    } else if k == 20 {
        ("energy"@, "energy"@, true)
    } else if k == 21 {
        ("utilities"@, "utilities"@, true)
    } else if k == 22 {
        ("industrials"@, "industrials"@, true)
    } else if k == 23 {
        ("industrial"@, "industrials"@, true)
    } else if k == 24 {
        ("semiconductor"@, "semiconductor"@, true)
    } else {
        ("biotechnology"@, "biotechnology"@, true)
    }
}

pub open spec fn universe_term_count() -> int {
    26
}

fn universe_term_exec(k: usize) -> (r: (&'static str, &'static str, bool))
    requires
        k < universe_term_count(),
    ensures
        (r.0@, r.1@, r.2) == universe_term(k as int),
{
    match k {
        0 => ("small cap", "small-cap", false),
        1 => ("mid cap", "mid-cap", false),
        2 => ("micro cap", "micro-cap", false),
        3 => ("european", "European", true),
        4 => ("europe", "European", true),
        5 => ("asia", "Asian", true),
        6 => ("asian", "Asian", true),
        7 => ("international", "international", true),
        8 => ("global", "global", true),
        9 => ("emerging market", "emerging-market", false),
        10 => ("forex", "forex", true),
        11 => ("foreign exchange", "foreign-exchange", false),
        12 => ("futures", "futures", true),
        13 => ("options", "options", true),
        14 => ("biotech", "biotech", true),
        15 => ("healthcare", "healthcare", true),
        16 => ("health care", "healthcare", false),
        17 => ("financial", "financials", true),
        18 => ("finance", "financials", true),
        19 => ("banking", "banking", true),
        20 => ("energy", "energy", true),
        21 => ("utilities", "utilities", true),
        22 => ("industrials", "industrials", true),
        23 => ("industrial", "industrials", true),
        24 => ("semiconductor", "semiconductor", true),
        _ => ("biotechnology", "biotechnology", true),
    }
}

/// The text holds a universe term (see `universe_term`).
pub open spec fn term_present(n: Seq<char>, term: (Seq<char>, Seq<char>, bool)) -> bool {
    if term.2 {
        contains_word(n, term.0)
    } else {
        contains(n, term.0)
    }
}

/// The label of the first refused universe term (from the `k`-th on) that
/// the text holds.
pub open spec fn universe_term_from(n: Seq<char>, k: int) -> Option<Seq<char>>
    decreases universe_term_count() - k,
{
    if k < 0 || k >= universe_term_count() {
        None
    } else if term_present(n, universe_term(k)) {
        Some(universe_term(k).1)
    } else {
        universe_term_from(n, k + 1)
    }
}

/// The words a screener scope may use.
pub open spec fn scope_words() -> Seq<char> {
    "find show screen list all the us large cap technology tech stocks stock equities equity companies company crypto spot assets asset market top in from of rsi revenue growth estimate estimates revision revisions price change momentum above below over under greater less more than fewer least most positive negative near around"@
}

fn scope_words_exec() -> (r: &'static str)
    ensures
        r@ == scope_words(),
{
    "find show screen list all the us large cap technology tech stocks stock equities equity companies company crypto spot assets asset market top in from of rsi revenue growth estimate estimates revision revisions price change momentum above below over under greater less more than fewer least most positive negative near around"
}

/// The words a ranking clause may use.
pub open spec fn rank_words() -> Seq<char> {
    "rank by sort order quality momentum price change revision strength ascending lowest smallest asc descending highest largest desc"@
}

fn rank_words_exec() -> (r: &'static str)
    ensures
        r@ == rank_words(),
{
    "rank by sort order quality momentum price change revision strength ascending lowest smallest asc descending highest largest desc"
}

/// End of the run of ASCII letters and digits starting at `i`.
pub open spec fn run_end(s: Seq<char>, i: int) -> int
    decreases s.len() - i,
{
    if i < 0 || i >= s.len() || !is_alnum(s[i]) {
        i
    } else {
        run_end(s, i + 1)
    }
}

pub proof fn lemma_run_end(s: Seq<char>, i: int)
    requires
        0 <= i <= s.len(),
    ensures
        i <= run_end(s, i) <= s.len(),
        forall|j: int| i <= j < run_end(s, i) ==> is_alnum(#[trigger] s[j]),
        run_end(s, i) < s.len() ==> !is_alnum(s[run_end(s, i)]),
    decreases s.len() - i,
{
    if i < s.len() && is_alnum(s[i]) {
        lemma_run_end(s, i + 1);
    }
}

/// A word of a text (a maximal run of ASCII letters and digits) that a
/// scope (`ranking == false`) or ranking clause (`ranking == true`) may not
/// use: a scope word outside `scope_words` that is not a number, or a
/// ranking word outside `rank_words`.
pub open spec fn foreign_word(tok: Seq<char>, ranking: bool) -> bool {
    if ranking {
        !contains_word(rank_words(), tok)
    } else {
        !contains_word(scope_words(), tok) && !all_digits(tok)
    }
}

/// The first foreign word of `s` at or after position `i`, where `i` is the
/// start of the text or just after a separator.
pub open spec fn foreign_word_from(s: Seq<char>, i: int, ranking: bool) -> Option<Seq<char>>
    decreases s.len() - i,
{
    if i < 0 || i >= s.len() {
        None
    } else {
        proof {
            lemma_run_end(s, i);
        }
        let j = run_end(s, i);
        if j > i && foreign_word(s.subrange(i, j), ranking) {
            Some(s.subrange(i, j))
        } else if j >= s.len() {
            None
        } else {
            foreign_word_from(s, j + 1, ranking)
        }
    }
}

fn foreign_word_exec(s: &Vec<char>, ranking: bool) -> (r: Option<Vec<char>>)
    ensures
        match r {
            Some(v) => foreign_word_from(s@, 0, ranking) == Some(v@),
            None => foreign_word_from(s@, 0, ranking) is None,
        },
{
    let words = chars(if ranking {
        rank_words_exec()
    } else {
        scope_words_exec()
    });
    let mut i: usize = 0;
    while i < s.len()
        invariant
            words@ == if ranking {
                rank_words()
            } else {
                scope_words()
            },
            i <= s@.len() + 1,
            foreign_word_from(s@, 0, ranking) == foreign_word_from(s@, i as int, ranking),
        decreases s@.len() + 1 - i,
    {
        let mut j = i;
        proof {
            lemma_run_end(s@, i as int);
        }
        while j < s.len() && ascii_alnum(s[j])
            invariant
                i <= j <= s@.len(),
                run_end(s@, i as int) == run_end(s@, j as int),
            decreases s@.len() - j,
        {
            j = j + 1;
        }
        if j > i {
            let tok = slice(s, i, j);
            let tok_text = string_of_all(&tok);
            let known = has_word(&words, tok_text.as_str());
            let foreign = if ranking {
                !known
            } else {
                !known && !digits_only(&tok)
            };
            if foreign {
                return Some(tok);
            }
        }
        if j == s.len() {
            return None;
        }
        i = j + 1;
    }
    None
}

fn universe_term_hit(n: &Vec<char>) -> (r: Option<&'static str>)
    ensures
        match r {
            Some(l) => universe_term_from(n@, 0) == Some(l@),
            None => universe_term_from(n@, 0) is None,
        },
{
    let mut k: usize = 0;
    while k < 26
        invariant
            k <= 26,
            universe_term_from(n@, 0) == universe_term_from(n@, k as int),
        decreases 26 - k,
    {
        let (term, label, word) = universe_term_exec(k);
        let hit = if word {
            has_word(n, term)
        } else {
            contains_str(n, term)
        };
        if hit {
            return Some(label);
        }
        k = k + 1;
    }
    None
}

/// Where the scope part of the text ends: at the first connective, field
/// name, ranking instruction or separator.
pub open spec fn scope_end(n: Seq<char>) -> int {
    match min_opt(
        min_opt(
            min_opt(min_opt(find(n, " with "@), find(n, " where "@)), min_opt(find(n, " that "@), find(n, " whose "@))),
            min_opt(min_opt(find(n, " rsi "@), find(n, " revenue "@)), min_opt(find(n, " growth "@), find(n, " estimate "@))),
        ),
        min_opt(
            min_opt(min_opt(find(n, " revision "@), find(n, " price "@)), min_opt(find(n, " momentum "@), find(n, " rank by "@))),
            min_opt(min_opt(find(n, " sort by "@), find(n, " order by "@)), min_opt(find(n, ","@), find(n, ";"@))),
        ),
    ) {
        Some(e) => e,
        None => n.len() as int,
    }
}

fn scope_end_exec(n: &Vec<char>) -> (r: usize)
    ensures
        r == scope_end(n@),
        r <= n@.len(),
{
    let m = min_pos(
        min_pos(
            min_pos(min_pos(find_pos(n, " with "), find_pos(n, " where ")), min_pos(find_pos(n, " that "), find_pos(n, " whose "))),
            min_pos(min_pos(find_pos(n, " rsi "), find_pos(n, " revenue ")), min_pos(find_pos(n, " growth "), find_pos(n, " estimate "))),
        ),
        min_pos(
            min_pos(min_pos(find_pos(n, " revision "), find_pos(n, " price ")), min_pos(find_pos(n, " momentum "), find_pos(n, " rank by "))),
            min_pos(min_pos(find_pos(n, " sort by "), find_pos(n, " order by ")), min_pos(find_pos(n, ","), find_pos(n, ";"))),
        ),
    );
    proof {
        lemma_find_in_text(n@, " with "@);
        lemma_find_in_text(n@, " where "@);
        lemma_find_in_text(n@, " that "@);
        lemma_find_in_text(n@, " whose "@);
        lemma_find_in_text(n@, " rsi "@);
        lemma_find_in_text(n@, " revenue "@);
        lemma_find_in_text(n@, " growth "@);
        lemma_find_in_text(n@, " estimate "@);
        lemma_find_in_text(n@, " revision "@);
        lemma_find_in_text(n@, " price "@);
        lemma_find_in_text(n@, " momentum "@);
        lemma_find_in_text(n@, " rank by "@);
        lemma_find_in_text(n@, " sort by "@);
        lemma_find_in_text(n@, " order by "@);
        lemma_find_in_text(n@, ","@);
        lemma_find_in_text(n@, ";"@);
    }
    match m {
        Some(e) => e,
        None => n.len(),
    }
}

/// Why the text asks for a universe the screener does not cover: a refused
/// term, large caps without a technology scope, or a word in the scope part
/// that is not one of the scope words.
pub open spec fn universe_reason(t: Seq<char>) -> Option<Seq<char>> {
    let n = spaced(t);
    match universe_term_from(n, 0) {
        Some(label) => Some("Unsupported universe: "@ + label + "."@),
        None => if contains(n, "large cap"@) && !(contains_word(n, "technology"@) || contains_word(
            n,
            "tech"@,
        )) {
            Some("Unsupported universe: large-cap without technology scope."@)
        } else {
            match foreign_word_from(n.subrange(0, scope_end(n)), 0, false) {
                Some(w) => Some("Unsupported universe qualifier: "@ + w + "."@),
                None => None,
            }
        },
    }
}

fn spaced_exec(t: &Vec<char>) -> (r: Vec<char>)
    ensures
        r@ == spaced(t@),
{
    let mut r: Vec<char> = Vec::new();
    let mut i: usize = 0;
    while i < t.len()
        invariant
            i <= t@.len(),
            r@ == spaced(t@.subrange(0, i as int)),
        decreases t@.len() - i,
    {
        let c = t[i];
        r.push(if c == '-' || c == '_' {
            ' '
        } else {
            c
        });
        i = i + 1;
        assert(r@ =~= spaced(t@.subrange(0, i as int)));
    }
    assert(t@.subrange(0, t@.len() as int) =~= t@);
    r
}

fn unsupported_universe_reason(t: &Vec<char>) -> (r: Option<String>)
    ensures
        opt_view(r) == universe_reason(t@),
{
    let n = spaced_exec(t);
    match universe_term_hit(&n) {
        Some(label) => {
            return Some(message("Unsupported universe: ", label, "."));
        },
        None => {},
    }
    if contains_str(&n, "large cap") && !(has_word(&n, "technology") || has_word(&n, "tech")) {
        return Some(owned("Unsupported universe: large-cap without technology scope."));
    }
    let end = scope_end_exec(&n);
    match foreign_word_exec(&slice(&n, 0, end), false) {
        Some(w) => {
            let mut m = owned("Unsupported universe qualifier: ");
            push_chars(&mut m, &w);
            append(&mut m, ".");
            Some(m)
        },
        None => None,
    }
}

/// The ranking clause: from the first of `rank by`, `sort by`, `order by`
/// (tried in that order) to the next comma or semicolon.
pub open spec fn rank_clause(t: Seq<char>) -> Option<Seq<char>> {
    match find(t, "rank by"@) {
        Some(i) => Some(first_clause(t.subrange(i, t.len() as int))),
        None => match find(t, "sort by"@) {
            Some(i) => Some(first_clause(t.subrange(i, t.len() as int))),
            None => match find(t, "order by"@) {
                Some(i) => Some(first_clause(t.subrange(i, t.len() as int))),
                None => None,
            },
        },
    }
}

/// The rank field a text names.
pub open spec fn named_rank_field(c: Seq<char>) -> Option<ScreenerRankField> {
    if contains(c, "momentum"@) || contains(c, "price change"@) {
        Some(ScreenerRankField::Momentum)
    } else if contains(c, "revision"@) {
        Some(ScreenerRankField::RevisionStrength)
    } else if contains(c, "quality"@) {
        Some(ScreenerRankField::Quality)
    } else {
        None
    }
}

/// The text asks for ascending order.
pub open spec fn asks_ascending(c: Seq<char>) -> bool {
    contains(c, "ascending"@) || contains(c, "lowest"@) || contains(c, "smallest"@) || contains(
        c,
        " asc"@,
    )
}

/// The ranking a text asks for and why it cannot be honoured, if so: from
/// the ranking clause when there is one (a field it does not name, then a
/// word it may not use), else from the whole text; quality and descending
/// order by default.
pub open spec fn rank_of(t: Seq<char>) -> (ScreenerRankField, ScreenerDirection, Option<Seq<char>>) {
    match rank_clause(t) {
        Some(c) => {
            let field = match named_rank_field(c) {
                Some(f) => f,
                None => ScreenerRankField::Quality,
            };
            let reason = match named_rank_field(c) {
                Some(_) => None,
                None => Some("Unsupported rank field in clause '"@ + c + "'."@),
            };
            let reason = match reason {
                Some(r) => Some(r),
                None => match foreign_word_from(c, 0, true) {
                    Some(w) => Some("Unsupported rank direction '"@ + w + "'."@),
                    None => None,
                },
            };
            (field, if asks_ascending(c) {
                ScreenerDirection::Asc
            } else {
                ScreenerDirection::Desc
            }, reason)
        },
        None => {
            let field = if contains(t, "momentum"@) || contains(t, "price change"@) {
                ScreenerRankField::Momentum
            } else if contains(t, "revision"@) {
                ScreenerRankField::RevisionStrength
            } else {
                ScreenerRankField::Quality
            };
            (field, if asks_ascending(t) {
                ScreenerDirection::Asc
            } else {
                ScreenerDirection::Desc
            }, None)
        },
    }
}

fn rank_clause_exec(t: &Vec<char>) -> (r: Option<Vec<char>>)
    ensures
        match r {
            Some(c) => rank_clause(t@) == Some(c@),
            None => rank_clause(t@) is None,
        },
{
    let at = match find_pos(t, "rank by") {
        Some(i) => i,
        None => match find_pos(t, "sort by") {
            Some(i) => i,
            None => match find_pos(t, "order by") {
                Some(i) => i,
                None => {
                    return None;
                },
            },
        },
    };
    proof {
        lemma_find_in_text(t@, "rank by"@);
        lemma_find_in_text(t@, "sort by"@);
        lemma_find_in_text(t@, "order by"@);
    }
    Some(first_clause_of(&slice(t, at, t.len())))
}

fn asks_ascending_exec(c: &Vec<char>) -> (r: bool)
    ensures
        r == asks_ascending(c@),
{
    contains_str(c, "ascending") || contains_str(c, "lowest") || contains_str(c, "smallest")
        || contains_str(c, " asc")
}

fn rank_from_text(t: &Vec<char>) -> (r: (ScreenerRankField, ScreenerDirection, Option<String>))
    ensures
        (r.0, r.1, opt_view(r.2)) == rank_of(t@),
{
    match rank_clause_exec(t) {
        Some(c) => {
            let (field, mut reason) = if contains_str(&c, "momentum") || contains_str(
                &c,
                "price change",
            ) {
                (ScreenerRankField::Momentum, None)
            } else if contains_str(&c, "revision") {
                (ScreenerRankField::RevisionStrength, None)
            } else if contains_str(&c, "quality") {
                (ScreenerRankField::Quality, None)
            } else {
                let mut m = owned("Unsupported rank field in clause '");
                push_chars(&mut m, &c);
                append(&mut m, "'.");
                (ScreenerRankField::Quality, Some(m))
            };
            if reason.is_none() {
                match foreign_word_exec(&c, true) {
                    Some(w) => {
                        let mut m = owned("Unsupported rank direction '");
                        push_chars(&mut m, &w);
                        append(&mut m, "'.");
                        reason = Some(m);
                    },
                    None => {},
                }
            }
            let direction = if asks_ascending_exec(&c) {
                ScreenerDirection::Asc
            } else {
                ScreenerDirection::Desc
            };
            (field, direction, reason)
        },
        None => {
            let field = if contains_str(t, "momentum") || contains_str(t, "price change") {
                ScreenerRankField::Momentum
            } else if contains_str(t, "revision") {
                ScreenerRankField::RevisionStrength
            } else {
                ScreenerRankField::Quality
            };
            let direction = if asks_ascending_exec(t) {
                ScreenerDirection::Asc
            } else {
                ScreenerDirection::Desc
            };
            (field, direction, None)
        },
    }
}

/// Position of the first non-whitespace character at or after `i`.
pub open spec fn skip_ws(s: Seq<char>, i: int) -> int
    decreases s.len() - i,
{
    if i < 0 || i >= s.len() || !is_whitespace(s[i]) {
        i
    } else {
        skip_ws(s, i + 1)
    }
}

/// Position of the first whitespace character at or after `i`.
pub open spec fn ws_end(s: Seq<char>, i: int) -> int
    decreases s.len() - i,
{
    if i < 0 || i >= s.len() || is_whitespace(s[i]) {
        i
    } else {
        ws_end(s, i + 1)
    }
}

proof fn lemma_skip_ws(s: Seq<char>, i: int)
    requires
        0 <= i <= s.len(),
    ensures
        i <= skip_ws(s, i) <= s.len(),
        i <= ws_end(s, i) <= s.len(),
    decreases s.len() - i,
{
    if i < s.len() {
        lemma_skip_ws(s, i + 1);
    }
}

/// The first whitespace-separated word (`split_whitespace().next()`), or
/// the empty text.
pub open spec fn first_word(s: Seq<char>) -> Seq<char> {
    let a = skip_ws(s, 0);
    s.subrange(a, ws_end(s, a))
}

/// Trailing commas, semicolons and points removed.
pub open spec fn trim_punct(s: Seq<char>) -> Seq<char>
    decreases s.len(),
{
    if s.len() > 0 && (s.last() == ',' || s.last() == ';' || s.last() == '.') {
        trim_punct(s.drop_last())
    } else {
        s
    }
}

/// The result limit a text asks for with `top N`, and why it cannot be
/// honoured, if so: no number, not a whole number that fits in 32 bits, or
/// outside 1 to 50.
pub open spec fn limit_of(t: Seq<char>) -> (Option<int>, Option<Seq<char>>) {
    match find(t, "top "@) {
        None => (None, None),
        Some(i) => {
            let number = trim_punct(first_word(t.subrange(i + "top "@.len(), t.len() as int)));
            if number.len() == 0 {
                (None, Some("Missing screener limit after 'top'."@))
            } else if !all_digits(number) || digits_value(number) > u32::MAX {
                (None, Some("Invalid screener limit."@))
            } else if !(1 <= digits_value(number) <= 50) {
                (
                    None,
                    Some(
                        "Screener limit "@ + nat_text(digits_value(number) as nat)
                            + " is outside the supported range 1–50."@,
                    ),
                )
            } else {
                (Some(digits_value(number)), None)
            }
        },
    }
}

/// The value of a digit string, or `None` when it exceeds `u32::MAX`.
fn digits_u32(v: &Vec<char>) -> (r: Option<u32>)
    requires
        all_digits(v@),
    ensures
        match r {
            Some(x) => x == digits_value(v@),
            None => digits_value(v@) > u32::MAX,
        },
{
    let mut acc: u64 = 0;
    let mut i: usize = 0;
    while i < v.len()
        invariant
            all_digits(v@),
            i <= v@.len(),
            acc == digits_value(v@.subrange(0, i as int)),
            acc <= u32::MAX,
        decreases v@.len() - i,
    {
        let d = (v[i] as u32 - '0' as u32) as u64;
        proof {
            assert(v@.subrange(0, i + 1).drop_last() =~= v@.subrange(0, i as int));
            assert(is_digit(v@[i as int]));
        }
        acc = acc * 10 + d;
        i = i + 1;
        if acc > 0xffff_ffff {
            proof {
                lemma_digits_value_prefix_bound(v@, i as int);
            }
            return None;
        }
    }
    assert(v@.subrange(0, v@.len() as int) =~= v@);
    Some(acc as u32)
}

/// A prefix's value never exceeds the whole digit string's value.
proof fn lemma_digits_value_prefix_bound(v: Seq<char>, i: int)
    requires
        all_digits(v),
        0 <= i <= v.len(),
    ensures
        digits_value(v.subrange(0, i)) <= digits_value(v),
    decreases v.len() - i,
{
    if i < v.len() {
        lemma_digits_value_prefix_bound(v, i + 1);
        let p = v.subrange(0, i + 1);
        assert(p.drop_last() =~= v.subrange(0, i));
        lemma_digits_value_bounds(v.subrange(0, i));
        assert(is_digit(p.last()));
        assert(digits_value(p) == digits_value(v.subrange(0, i)) * 10 + digit_value(p.last()));
    } else {
        assert(v.subrange(0, i) =~= v);
    }
}

fn parse_limit(t: &Vec<char>) -> (r: (Option<u32>, Option<String>))
    ensures
        (match r.0 {
            Some(x) => Some(x as int),
            None => None,
        }, opt_view(r.1)) == limit_of(t@),
{
    let i = match find_pos(t, "top ") {
        Some(i) => i,
        None => {
            return (None, None);
        },
    };
    proof {
        lemma_find_in_text(t@, "top "@);
        reveal_strlit("top ");
    }
    let tl = t.len();
    assert(i + 4 <= tl);
    let rest = slice(t, i + 4, tl);
    let mut a: usize = 0;
    proof {
        lemma_skip_ws(rest@, 0);
    }
    while a < rest.len() && char_is_whitespace(rest[a])
        invariant
            a <= rest@.len(),
            skip_ws(rest@, 0) == skip_ws(rest@, a as int),
        decreases rest@.len() - a,
    {
        a = a + 1;
    }
    let mut b: usize = a;
    while b < rest.len() && !char_is_whitespace(rest[b])
        invariant
            a <= b <= rest@.len(),
            ws_end(rest@, a as int) == ws_end(rest@, b as int),
        decreases rest@.len() - b,
    {
        b = b + 1;
    }
    let word = slice(&rest, a, b);
    let mut n: usize = word.len();
    assert(word@.subrange(0, word@.len() as int) =~= word@);
    while n > 0 && (word[n - 1] == ',' || word[n - 1] == ';' || word[n - 1] == '.')
        invariant
            n <= word@.len(),
            trim_punct(word@) == trim_punct(word@.subrange(0, n as int)),
        decreases n,
    {
        proof {
            assert(word@.subrange(0, n as int).drop_last() =~= word@.subrange(0, n - 1));
        }
        n = n - 1;
    }
    let number = slice(&word, 0, n);
    if number.len() == 0 {
        return (None, Some(owned("Missing screener limit after 'top'.")));
    }
    if !digits_only(&number) {
        return (None, Some(owned("Invalid screener limit.")));
    }
    let value = match digits_u32(&number) {
        Some(v) => v,
        None => {
            return (None, Some(owned("Invalid screener limit.")));
        },
    };
    if !(1 <= value && value <= 50) {
        let mut m = owned("Screener limit ");
        append(&mut m, u64_text(value as u64).as_str());
        append(&mut m, " is outside the supported range 1–50.");
        return (None, Some(m));
    }
    (Some(value), None)
}

// ----------------------------------------------------------------------------
// The parsed request
// ----------------------------------------------------------------------------

/// A filter specification: the universe and each predicate's field,
/// comparison and threshold.
pub open spec fn filter_view(f: FilterSpec) -> (ScreenerUniverse, Seq<(ScreenerPredicateField, ScreenerOperator, Seq<char>)>) {
    (f.universe, predicate_views(f.predicates@))
}

pub open spec fn rank_view(r: RankSpec) -> (ScreenerRankField, ScreenerDirection) {
    (r.field, r.direction)
}

/// The universe a text asks for.
pub open spec fn universe_of(t: Seq<char>) -> ScreenerUniverse {
    if contains_word(t, "crypto"@) || contains_word(t, "spot"@) {
        ScreenerUniverse::CryptoSpot
    } else if contains_word(t, "technology"@) || contains_word(t, "tech"@) {
        ScreenerUniverse::UsLargeCapTechnology
    } else {
        ScreenerUniverse::UsEquities
    }
}

/// Predicates found so far and the first reason met, or where parsing stopped.
pub open spec fn fold_step(
    acc: Result<(Seq<(ScreenerPredicateField, ScreenerOperator, Seq<char>)>, Option<Seq<char>>), ParseStop>,
    f: ScreenerPredicateField,
    step: PredicateStep,
) -> Result<(Seq<(ScreenerPredicateField, ScreenerOperator, Seq<char>)>, Option<Seq<char>>), ParseStop> {
    match acc {
        Err(e) => Err(e),
        Ok((ps, r)) => match step {
            PredicateStep::Absent => Ok((ps, r)),
            PredicateStep::Unsupported(m) => Ok((ps, first_some(r, Some(m)))),
            PredicateStep::Found(op, th) => Ok((ps.push((f, op, th)), r)),
            PredicateStep::Stop(e) => Err(e),
        },
    }
}

/// The four fields read in order: revenue growth, estimate revision, RSI,
/// price change.
pub open spec fn predicates_of(t: Seq<char>) -> Result<(Seq<(ScreenerPredicateField, ScreenerOperator, Seq<char>)>, Option<Seq<char>>), ParseStop> {
    let a = fold_step(
        Ok((Seq::empty(), None)),
        ScreenerPredicateField::RevenueGrowth,
        predicate_step(t, ScreenerPredicateField::RevenueGrowth),
    );
    let b = fold_step(
        a,
        ScreenerPredicateField::EstimateRevision,
        predicate_step(t, ScreenerPredicateField::EstimateRevision),
    );
    let c = fold_step(b, ScreenerPredicateField::Rsi, predicate_step(t, ScreenerPredicateField::Rsi));
    fold_step(
        c,
        ScreenerPredicateField::PriceChange,
        predicate_step(t, ScreenerPredicateField::PriceChange),
    )
}

/// A threshold a request may carry: 1 to 64 bytes, no control character,
/// an accepted decimal.
pub open spec fn threshold_ok(th: Seq<char>) -> bool {
    &&& th.len() > 0
    &&& utf8_len(th) <= 64
    &&& !any_control(th)
    &&& decimal_accepts(th)
}

/// A filter a request may carry: at most eight predicates with valid thresholds.
pub open spec fn filter_ok(f: (ScreenerUniverse, Seq<(ScreenerPredicateField, ScreenerOperator, Seq<char>)>)) -> bool {
    &&& f.1.len() <= 8
    &&& forall|i: int| 0 <= i < f.1.len() ==> threshold_ok(#[trigger] f.1[i].2)
}

/// The request fields are within their bounds.
pub open spec fn request_ok(r: ScreenerRequest) -> bool {
    &&& !all_whitespace(r.workspace_id@)
    &&& r.workspace_id@.len() <= 128
    &&& !any_control(r.workspace_id@)
    &&& !all_whitespace(r.natural_language@)
    &&& r.natural_language@.len() <= 4000
    &&& !any_control(r.natural_language@)
    &&& (r.limit matches Some(l) ==> 1 <= l <= 50)
    &&& (r.revision matches Some(v) ==> v@.len() > 0 && utf8_len(v@) <= 80 && !any_control(v@))
    &&& (r.filter_spec matches Some(f) ==> filter_ok(filter_view(f)))
}

/// Variant names (`Debug` text) of the screener enums.
pub open spec fn universe_name(u: ScreenerUniverse) -> Seq<char> {
    match u {
        ScreenerUniverse::UsEquities => "UsEquities"@,
        ScreenerUniverse::UsLargeCapTechnology => "UsLargeCapTechnology"@,
        ScreenerUniverse::CryptoSpot => "CryptoSpot"@,
    }
}

pub open spec fn operator_name(o: ScreenerOperator) -> Seq<char> {
    match o {
        ScreenerOperator::GreaterThan => "GreaterThan"@,
        ScreenerOperator::GreaterOrEqual => "GreaterOrEqual"@,
        ScreenerOperator::LessThan => "LessThan"@,
        ScreenerOperator::LessOrEqual => "LessOrEqual"@,
    }
}

pub open spec fn rank_field_name(f: ScreenerRankField) -> Seq<char> {
    match f {
        ScreenerRankField::Quality => "Quality"@,
        ScreenerRankField::RevisionStrength => "RevisionStrength"@,
        ScreenerRankField::Momentum => "Momentum"@,
    }
}

pub open spec fn direction_name(d: ScreenerDirection) -> Seq<char> {
    match d {
        ScreenerDirection::Asc => "Asc"@,
        ScreenerDirection::Desc => "Desc"@,
    }
}

fn universe_str(u: ScreenerUniverse) -> (r: &'static str)
    ensures
        r@ == universe_name(u),
{
    match u {
        ScreenerUniverse::UsEquities => "UsEquities",
        ScreenerUniverse::UsLargeCapTechnology => "UsLargeCapTechnology",
        ScreenerUniverse::CryptoSpot => "CryptoSpot",
    }
}

fn operator_str(o: ScreenerOperator) -> (r: &'static str)
    ensures
        r@ == operator_name(o),
{
    match o {
        ScreenerOperator::GreaterThan => "GreaterThan",
        ScreenerOperator::GreaterOrEqual => "GreaterOrEqual",
        ScreenerOperator::LessThan => "LessThan",
        ScreenerOperator::LessOrEqual => "LessOrEqual",
    }
}

fn rank_field_str(f: ScreenerRankField) -> (r: &'static str)
    ensures
        r@ == rank_field_name(f),
{
    match f {
        ScreenerRankField::Quality => "Quality",
        ScreenerRankField::RevisionStrength => "RevisionStrength",
        ScreenerRankField::Momentum => "Momentum",
    }
}

fn direction_str(d: ScreenerDirection) -> (r: &'static str)
    ensures
        r@ == direction_name(d),
{
    match d {
        ScreenerDirection::Asc => "Asc",
        ScreenerDirection::Desc => "Desc",
    }
}

/// One applied condition per predicate: field, comparison, threshold.
pub open spec fn predicate_lines(ps: Seq<(ScreenerPredicateField, ScreenerOperator, Seq<char>)>) -> Seq<Seq<char>> {
    ps.map_values(
        |p: (ScreenerPredicateField, ScreenerOperator, Seq<char>)|
            field_name(p.0) + " "@ + operator_name(p.1) + " "@ + p.2,
    )
}

/// The conditions a result reports: universe, predicates, ranking, limit.
pub open spec fn applied_lines(
    f: (ScreenerUniverse, Seq<(ScreenerPredicateField, ScreenerOperator, Seq<char>)>),
    r: (ScreenerRankField, ScreenerDirection),
    limit: nat,
) -> Seq<Seq<char>> {
    seq!["Universe: "@ + universe_name(f.0)] + predicate_lines(f.1) + seq![
        "Rank: "@ + rank_field_name(r.0) + " "@ + direction_name(r.1),
        "Limit: "@ + nat_text(limit),
    ]
}

#[verifier::spinoff_prover]
fn applied_conditions(filter: &FilterSpec, rank: &RankSpec, limit: u32) -> (r: Vec<String>)
    ensures
        text_views(r@) == applied_lines(filter_view(*filter), rank_view(*rank), limit as nat),
{
    let mut out: Vec<String> = Vec::new();
    out.push(concat("Universe: ", universe_str(filter.universe)));
    let mut i: usize = 0;
    proof {
        assert(predicate_lines(predicate_views(filter.predicates@.subrange(0, 0))) =~= Seq::<
            Seq<char>,
        >::empty());
        assert(text_views(out@) =~= seq!["Universe: "@ + universe_name(filter.universe)]
            + predicate_lines(predicate_views(filter.predicates@.subrange(0, 0))));
    }
    while i < filter.predicates.len()
        invariant
            i <= filter.predicates@.len(),
            text_views(out@) == seq!["Universe: "@ + universe_name(filter.universe)]
                + predicate_lines(predicate_views(filter.predicates@.subrange(0, i as int))),
        decreases filter.predicates@.len() - i,
    {
        let p = &filter.predicates[i];
        let mut line = message(field_str(p.field), " ", operator_str(p.operator));
        append(&mut line, " ");
        append(&mut line, p.threshold.as_str());
        let ghost before = out@;
        out.push(line);
        i = i + 1;
        proof {
            let pre = predicate_views(filter.predicates@.subrange(0, i - 1));
            let cur = predicate_views(filter.predicates@.subrange(0, i as int));
            assert(cur =~= pre.push((p.field, p.operator, p.threshold@)));
            assert(predicate_lines(cur) =~= predicate_lines(pre).push(
                field_name(p.field) + " "@ + operator_name(p.operator) + " "@ + p.threshold@,
            ));
            assert(text_views(out@) =~= text_views(before).push(line@));
        }
    }
    let mut rank_line = message("Rank: ", rank_field_str(rank.field), " ");
    append(&mut rank_line, direction_str(rank.direction));
    let ghost mid = out@;
    out.push(rank_line);
    out.push(concat("Limit: ", u64_text(limit as u64).as_str()));
    proof {
        assert(filter.predicates@.subrange(0, filter.predicates@.len() as int) =~= filter.predicates@);
        assert(text_views(out@) =~= text_views(mid).push(
            "Rank: "@ + rank_field_name(rank.field) + " "@ + direction_name(rank.direction),
        ).push("Limit: "@ + nat_text(limit as nat)));
        assert(text_views(out@) =~= applied_lines(filter_view(*filter), rank_view(*rank), limit as nat));
    }
    out
}

// ----------------------------------------------------------------------------
// Revision
// ----------------------------------------------------------------------------

/// Wire names (JSON) of the screener enums.
pub open spec fn universe_wire(u: ScreenerUniverse) -> Seq<char> {
    match u {
        ScreenerUniverse::UsEquities => "US_EQUITIES"@,
        ScreenerUniverse::UsLargeCapTechnology => "US_LARGE_CAP_TECHNOLOGY"@,
        ScreenerUniverse::CryptoSpot => "CRYPTO_SPOT"@,
    }
}

pub open spec fn field_wire(f: ScreenerPredicateField) -> Seq<char> {
    match f {
        ScreenerPredicateField::RevenueGrowth => "REVENUE_GROWTH"@,
        ScreenerPredicateField::EstimateRevision => "ESTIMATE_REVISION"@,
        ScreenerPredicateField::Rsi => "RSI"@,
        ScreenerPredicateField::PriceChange => "PRICE_CHANGE"@,
    }
}

pub open spec fn operator_wire(o: ScreenerOperator) -> Seq<char> {
    match o {
        ScreenerOperator::GreaterThan => "GREATER_THAN"@,
        ScreenerOperator::GreaterOrEqual => "GREATER_OR_EQUAL"@,
        ScreenerOperator::LessThan => "LESS_THAN"@,
        ScreenerOperator::LessOrEqual => "LESS_OR_EQUAL"@,
    }
}

pub open spec fn rank_field_wire(f: ScreenerRankField) -> Seq<char> {
    match f {
        ScreenerRankField::Quality => "QUALITY"@,
        ScreenerRankField::RevisionStrength => "REVISION_STRENGTH"@,
        ScreenerRankField::Momentum => "MOMENTUM"@,
    }
}

pub open spec fn direction_wire(d: ScreenerDirection) -> Seq<char> {
    match d {
        ScreenerDirection::Asc => "ASC"@,
        ScreenerDirection::Desc => "DESC"@,
    }
}

pub open spec fn focus_wire(f: Option<ResearchFocus>) -> Seq<char> {
    match f {
        None => "null"@,
        Some(ResearchFocus::General) => "\"GENERAL\""@,
        Some(ResearchFocus::Equity) => "\"EQUITY\""@,
        Some(ResearchFocus::CryptoSpot) => "\"CRYPTO_SPOT\""@,
    }
}

fn universe_wire_str(u: ScreenerUniverse) -> (r: &'static str)
    ensures
        r@ == universe_wire(u),
{
    match u {
        ScreenerUniverse::UsEquities => "US_EQUITIES",
        ScreenerUniverse::UsLargeCapTechnology => "US_LARGE_CAP_TECHNOLOGY",
        ScreenerUniverse::CryptoSpot => "CRYPTO_SPOT",
    }
}

fn field_wire_str(f: ScreenerPredicateField) -> (r: &'static str)
    ensures
        r@ == field_wire(f),
{
    match f {
        ScreenerPredicateField::RevenueGrowth => "REVENUE_GROWTH",
        ScreenerPredicateField::EstimateRevision => "ESTIMATE_REVISION",
        ScreenerPredicateField::Rsi => "RSI",
        ScreenerPredicateField::PriceChange => "PRICE_CHANGE",
    }
}

fn operator_wire_str(o: ScreenerOperator) -> (r: &'static str)
    ensures
        r@ == operator_wire(o),
{
    match o {
        ScreenerOperator::GreaterThan => "GREATER_THAN",
        ScreenerOperator::GreaterOrEqual => "GREATER_OR_EQUAL",
        ScreenerOperator::LessThan => "LESS_THAN",
        ScreenerOperator::LessOrEqual => "LESS_OR_EQUAL",
    }
}

fn rank_field_wire_str(f: ScreenerRankField) -> (r: &'static str)
    ensures
        r@ == rank_field_wire(f),
{
    match f {
        ScreenerRankField::Quality => "QUALITY",
        ScreenerRankField::RevisionStrength => "REVISION_STRENGTH",
        ScreenerRankField::Momentum => "MOMENTUM",
    }
}

fn direction_wire_str(d: ScreenerDirection) -> (r: &'static str)
    ensures
        r@ == direction_wire(d),
{
    match d {
        ScreenerDirection::Asc => "ASC",
        ScreenerDirection::Desc => "DESC",
    }
}

fn focus_wire_str(f: Option<ResearchFocus>) -> (r: &'static str)
    ensures
        r@ == focus_wire(f),
{
    match f {
        None => "null",
        Some(ResearchFocus::General) => "\"GENERAL\"",
        Some(ResearchFocus::Equity) => "\"EQUITY\"",
        Some(ResearchFocus::CryptoSpot) => "\"CRYPTO_SPOT\"",
    }
}

/// A JSON string body: quotes and backslashes escaped (the texts written
/// here hold no control characters).
pub open spec fn json_escape(s: Seq<char>) -> Seq<char>
    decreases s.len(),
{
    if s.len() == 0 {
        Seq::empty()
    } else {
        let c = s.last();
        json_escape(s.drop_last()) + if c == '"' || c == '\\' {
            seq!['\\', c]
        } else {
            seq![c]
        }
    }
}

fn push_escaped(out: &mut String, s: &str)
    ensures
        final(out)@ == old(out)@ + json_escape(s@),
{
    let v = chars(s);
    let mut i: usize = 0;
    while i < v.len()
        invariant
            v@ == s@,
            i <= v@.len(),
            out@ == old(out)@ + json_escape(v@.subrange(0, i as int)),
        decreases v@.len() - i,
    {
        let c = v[i];
        if c == '"' || c == '\\' {
            push_char(out, '\\');
        }
        push_char(out, c);
        proof {
            assert(v@.subrange(0, i + 1).drop_last() =~= v@.subrange(0, i as int));
        }
        i = i + 1;
        assert(out@ =~= old(out)@ + json_escape(v@.subrange(0, i as int)));
    }
    assert(v@.subrange(0, v@.len() as int) =~= v@);
}

/// One predicate as a JSON object.
pub open spec fn predicate_json(p: (ScreenerPredicateField, ScreenerOperator, Seq<char>)) -> Seq<char> {
    "{\"field\":\""@ + field_wire(p.0) + "\",\"operator\":\""@ + operator_wire(p.1)
        + "\",\"threshold\":\""@ + json_escape(p.2) + "\"}"@
}

/// Predicates as the items of a JSON array.
pub open spec fn predicates_json(ps: Seq<(ScreenerPredicateField, ScreenerOperator, Seq<char>)>) -> Seq<char>
    decreases ps.len(),
{
    if ps.len() == 0 {
        Seq::empty()
    } else if ps.len() == 1 {
        predicate_json(ps[0])
    } else {
        predicates_json(ps.drop_last()) + ","@ + predicate_json(ps.last())
    }
}

/// The bytes a revision digests: a compact JSON object with the keys in
/// order `filterSpec`, `focus`, `limit`, `naturalLanguage`, `rankSpec`.
pub open spec fn revision_material(
    natural_language: Seq<char>,
    focus: Option<ResearchFocus>,
    f: (ScreenerUniverse, Seq<(ScreenerPredicateField, ScreenerOperator, Seq<char>)>),
    r: (ScreenerRankField, ScreenerDirection),
    limit: nat,
) -> Seq<char> {
    "{\"filterSpec\":{\"universe\":\""@ + universe_wire(f.0) + "\",\"predicates\":["@
        + predicates_json(f.1) + "]},\"focus\":"@ + focus_wire(focus) + ",\"limit\":"@
        + nat_text(limit) + ",\"naturalLanguage\":\""@ + json_escape(natural_language)
        + "\",\"rankSpec\":{\"field\":\""@ + rank_field_wire(r.0) + "\",\"direction\":\""@
        + direction_wire(r.1) + "\"}}"@
}

/// The revision of a parsed request: `sha256:` and the lowercase hex SHA-256
/// digest of its material.
pub open spec fn revision_text(
    natural_language: Seq<char>,
    focus: Option<ResearchFocus>,
    f: (ScreenerUniverse, Seq<(ScreenerPredicateField, ScreenerOperator, Seq<char>)>),
    r: (ScreenerRankField, ScreenerDirection),
    limit: nat,
) -> Seq<char> {
    "sha256:"@ + hex_text(sha256_digest(revision_material(natural_language, focus, f, r, limit)))
}

#[verifier::spinoff_prover]
#[verifier::rlimit(50)]
fn revision_for(request: &ScreenerRequest, filter: &FilterSpec, rank: &RankSpec, limit: u32) -> (r: String)
    ensures
        r@ == revision_text(
            request.natural_language@,
            request.focus,
            filter_view(*filter),
            rank_view(*rank),
            limit as nat,
        ),
{
    let mut m = owned("{\"filterSpec\":{\"universe\":\"");
    append(&mut m, universe_wire_str(filter.universe));
    append(&mut m, "\",\"predicates\":[");
    let ghost start = m@;
    let mut i: usize = 0;
    while i < filter.predicates.len()
        invariant
            i <= filter.predicates@.len(),
            m@ == start + predicates_json(predicate_views(filter.predicates@.subrange(0, i as int))),
        decreases filter.predicates@.len() - i,
    {
        let p = &filter.predicates[i];
        let ghost before = m@;
        if i > 0 {
            append(&mut m, ",");
        }
        append(&mut m, "{\"field\":\"");
        append(&mut m, field_wire_str(p.field));
        append(&mut m, "\",\"operator\":\"");
        append(&mut m, operator_wire_str(p.operator));
        append(&mut m, "\",\"threshold\":\"");
        push_escaped(&mut m, p.threshold.as_str());
        append(&mut m, "\"}");
        i = i + 1;
        proof {
            let pre = predicate_views(filter.predicates@.subrange(0, i - 1));
            let cur = predicate_views(filter.predicates@.subrange(0, i as int));
            assert(cur =~= pre.push((p.field, p.operator, p.threshold@)));
            assert(cur.drop_last() =~= pre);
            if i == 1 {
                assert(pre.len() == 0);
                assert(m@ =~= start + predicates_json(cur));
            } else {
                assert(m@ =~= start + predicates_json(cur));
            }
        }
    }
    append(&mut m, "]},\"focus\":");
    append(&mut m, focus_wire_str(request.focus));
    append(&mut m, ",\"limit\":");
    append(&mut m, u64_text(limit as u64).as_str());
    append(&mut m, ",\"naturalLanguage\":\"");
    push_escaped(&mut m, request.natural_language.as_str());
    append(&mut m, "\",\"rankSpec\":{\"field\":\"");
    append(&mut m, rank_field_wire_str(rank.field));
    append(&mut m, "\",\"direction\":\"");
    append(&mut m, direction_wire_str(rank.direction));
    append(&mut m, "\"}}");
    proof {
        assert(filter.predicates@.subrange(0, filter.predicates@.len() as int) =~= filter.predicates@);
        assert(m@ =~= revision_material(
            request.natural_language@,
            request.focus,
            filter_view(*filter),
            rank_view(*rank),
            limit as nat,
        ));
    }
    let digest = sha256_of_text(m.as_str());
    let hex = hex_encode(digest.as_slice());
    concat("sha256:", hex.as_str())
}

// ----------------------------------------------------------------------------
// Results
// ----------------------------------------------------------------------------

/// What a screener candidate reports.
pub ghost struct CandidateModel {
    pub instrument_id: Seq<char>,
    pub symbol: Seq<char>,
    pub rank: int,
    pub features: Seq<(ScreenerFeatureField, Seq<char>)>,
    pub source_id: Seq<char>,
    pub provider_timestamp: Option<Seq<char>>,
    pub received_timestamp: Seq<char>,
    pub freshness: ResearchFreshness,
    pub quality: ResearchQuality,
    pub limitation: Option<Seq<char>>,
}

/// What a screener result reports.
pub ghost struct ResultModel {
    pub workspace_id: Seq<char>,
    pub operation: ScreenerOperation,
    pub state: ScreenerResultState,
    pub natural_language: Seq<char>,
    pub focus: Option<ResearchFocus>,
    pub filter: Option<(ScreenerUniverse, Seq<(ScreenerPredicateField, ScreenerOperator, Seq<char>)>)>,
    pub rank: Option<(ScreenerRankField, ScreenerDirection)>,
    pub revision: Option<Seq<char>>,
    pub applied: Seq<Seq<char>>,
    pub candidates: Seq<CandidateModel>,
    pub candidate_count: int,
    pub source_ids: Seq<Seq<char>>,
    pub provider_timestamp: Option<Seq<char>>,
    pub received_timestamp: Seq<char>,
    pub reason: Seq<char>,
    pub limitations: Seq<Seq<char>>,
    pub fixture_label: Option<Seq<char>>,
}

pub open spec fn candidate_view(c: ScreenerCandidate) -> CandidateModel {
    CandidateModel {
        instrument_id: c.instrument_id@,
        symbol: c.symbol@,
        rank: c.rank as int,
        features: c.features@.map_values(|f: ScreenerFeature| (f.field, f.value@)),
        source_id: c.provenance.source_id@,
        provider_timestamp: opt_view(c.provenance.provider_timestamp),
        received_timestamp: c.provenance.received_timestamp@,
        freshness: c.provenance.freshness,
        quality: c.provenance.quality,
        limitation: opt_view(c.limitation),
    }
}

pub open spec fn result_view(r: ScreenerResult) -> ResultModel {
    ResultModel {
        workspace_id: r.workspace_id@,
        operation: r.operation,
        state: r.state,
        natural_language: r.natural_language@,
        focus: r.focus,
        filter: match r.filter_spec {
            Some(f) => Some(filter_view(f)),
            None => None,
        },
        rank: match r.rank_spec {
            Some(x) => Some(rank_view(x)),
            None => None,
        },
        revision: opt_view(r.revision),
        applied: text_views(r.applied_conditions@),
        candidates: r.candidates@.map_values(|c: ScreenerCandidate| candidate_view(c)),
        candidate_count: r.candidate_count as int,
        source_ids: text_views(r.source_ids@),
        provider_timestamp: opt_view(r.provider_timestamp),
        received_timestamp: r.received_timestamp@,
        reason: r.availability_reason@,
        limitations: text_views(r.limitations@),
        fixture_label: opt_view(r.fixture_label),
    }
}

/// The limit a parsed request carries: the request's, else the text's,
/// else ten.
pub open spec fn parsed_limit(req: ScreenerRequest, t: Seq<char>) -> int {
    match req.limit {
        Some(l) => l as int,
        None => match limit_of(t).0 {
            Some(v) => v,
            None => 10,
        },
    }
}

/// The first reason the text cannot be screened as written.
pub open spec fn parse_reason(t: Seq<char>, r0: Option<Seq<char>>) -> Option<Seq<char>> {
    first_some(
        first_some(first_some(first_some(r0, universe_reason(t)), filter_reason(t)), rank_of(t).2),
        limit_of(t).1,
    )
}

/// The filter a parse settles on: the request's, else the one read from the text.
pub open spec fn parsed_filter(
    req: ScreenerRequest,
    t: Seq<char>,
    ps: Seq<(ScreenerPredicateField, ScreenerOperator, Seq<char>)>,
) -> (ScreenerUniverse, Seq<(ScreenerPredicateField, ScreenerOperator, Seq<char>)>) {
    match req.filter_spec {
        Some(f) => filter_view(f),
        None => (universe_of(t), ps),
    }
}

/// The ranking a parse settles on: the request's, else the one read from the text.
pub open spec fn parsed_rank(req: ScreenerRequest, t: Seq<char>) -> (ScreenerRankField, ScreenerDirection) {
    match req.rank_spec {
        Some(r) => rank_view(r),
        None => (rank_of(t).0, rank_of(t).1),
    }
}

/// The parse of a request whose lowercased text is `t`: the filter and
/// ranking (the request's own where it carries them), the limit, the
/// revision of the four, and whether the text can be screened, with the
/// reason; or why parsing stops.
pub open spec fn parse_model(req: ScreenerRequest, t: Seq<char>, received: Seq<char>) -> Result<ResultModel, ParseStop> {
    match predicates_of(t) {
        Err(e) => Err(e),
        Ok((ps, r0)) => {
            let filter = parsed_filter(req, t, ps);
            if !filter_ok(filter) {
                Err(ParseStop::Invalid)
            } else {
                let rank = parsed_rank(req, t);
                let limit = parsed_limit(req, t);
                let reason = parse_reason(t, r0);
                let state = if reason is None && filter.1.len() > 0 {
                    ScreenerResultState::Parsed
                } else {
                    ScreenerResultState::Failed
                };
                let why = match reason {
                    Some(m) => m,
                    None => if filter.1.len() == 0 {
                        "No supported screener predicate was found in the request."@
                    } else {
                        "Natural-language conditions were parsed into a bounded FilterSpec and RankSpec."@
                    },
                };
                let limitations = match reason {
                    Some(m) => seq!["SCREENER_FILTER_UNSUPPORTED: "@ + m],
                    None => if filter.1.len() == 0 {
                        seq!["SCREENER_FILTER_UNSUPPORTED"@]
                    } else {
                        Seq::empty()
                    },
                };
                Ok(
                    ResultModel {
                        workspace_id: req.workspace_id@,
                        operation: req.operation,
                        state,
                        natural_language: req.natural_language@,
                        focus: req.focus,
                        filter: Some(filter),
                        rank: Some(rank),
                        revision: Some(
                            revision_text(req.natural_language@, req.focus, filter, rank, limit as nat),
                        ),
                        applied: applied_lines(filter, rank, limit as nat),
                        candidates: Seq::empty(),
                        candidate_count: 0,
                        source_ids: Seq::empty(),
                        provider_timestamp: None,
                        received_timestamp: received,
                        reason: why,
                        limitations,
                        fixture_label: None,
                    },
                )
            }
        },
    }
}

fn copy_filter(f: &FilterSpec) -> (r: FilterSpec)
    ensures
        filter_view(r) == filter_view(*f),
{
    let mut ps: Vec<ScreenerPredicate> = Vec::new();
    let mut i: usize = 0;
    while i < f.predicates.len()
        invariant
            i <= f.predicates@.len(),
            predicate_views(ps@) == predicate_views(f.predicates@.subrange(0, i as int)),
        decreases f.predicates@.len() - i,
    {
        let p = &f.predicates[i];
        let ghost before = ps@;
        ps.push(ScreenerPredicate { field: p.field, operator: p.operator, threshold: p.threshold.clone() });
        i = i + 1;
        proof {
            assert(predicate_views(ps@) =~= predicate_views(before).push((p.field, p.operator, p.threshold@)));
            assert(predicate_views(f.predicates@.subrange(0, i as int)) =~= predicate_views(
                f.predicates@.subrange(0, i - 1),
            ).push((p.field, p.operator, p.threshold@)));
        }
    }
    assert(f.predicates@.subrange(0, f.predicates@.len() as int) =~= f.predicates@);
    FilterSpec { universe: f.universe, predicates: ps }
}

fn copy_rank(r: &RankSpec) -> (c: RankSpec)
    ensures
        rank_view(c) == rank_view(*r),
{
    RankSpec { field: r.field, direction: r.direction }
}

fn threshold_valid(th: &str) -> (r: bool)
    ensures
        r == threshold_ok(th@),
{
    let v = chars(th);
    v.len() > 0 && byte_len(&v) <= 64 && !has_control(&v) && normalize_decimal_text(th).is_some()
}

fn filter_valid(f: &FilterSpec) -> (r: bool)
    ensures
        r == filter_ok(filter_view(*f)),
{
    if f.predicates.len() > 8 {
        return false;
    }
    let mut i: usize = 0;
    while i < f.predicates.len()
        invariant
            i <= f.predicates@.len() <= 8,
            forall|j: int| 0 <= j < i ==> threshold_ok(#[trigger] f.predicates@[j].threshold@),
        decreases f.predicates@.len() - i,
    {
        if !threshold_valid(f.predicates[i].threshold.as_str()) {
            assert(filter_view(*f).1[i as int].2 == f.predicates@[i as int].threshold@);
            return false;
        }
        i = i + 1;
    }
    assert forall|j: int| 0 <= j < filter_view(*f).1.len() implies threshold_ok(
        #[trigger] filter_view(*f).1[j].2,
    ) by {
        assert(filter_view(*f).1[j].2 == f.predicates@[j].threshold@);
    }
    true
}

/// The request fields are within their bounds (see `request_ok`).
pub fn request_valid(request: &ScreenerRequest) -> (r: bool)
    ensures
        r == request_ok(*request),
{
    let ws = chars(request.workspace_id.as_str());
    let nl = chars(request.natural_language.as_str());
    if blank(&ws) || ws.len() > 128 || has_control(&ws) || blank(&nl) || nl.len() > 4000
        || has_control(&nl) {
        return false;
    }
    match request.limit {
        Some(l) => {
            if !(1 <= l && l <= 50) {
                return false;
            }
        },
        None => {},
    }
    match &request.revision {
        Some(v) => {
            let vv = chars(v.as_str());
            if vv.len() == 0 || byte_len(&vv) > 80 || has_control(&vv) {
                return false;
            }
        },
        None => {},
    }
    match &request.filter_spec {
        Some(f) => filter_valid(f),
        None => true,
    }
}

/// Parses a request whose lowercased text is `t` (see `parse_model`).
fn parse(request: &ScreenerRequest, t: &Vec<char>, received: &str) -> (r: Result<ScreenerResult, ParseStop>)
    ensures
        match parse_model(*request, t@, received@) {
            Ok(m) => r matches Ok(res) && result_view(res) == m,
            Err(e) => r == Err::<ScreenerResult, ParseStop>(e),
        },
{
    let universe = if has_word(t, "crypto") || has_word(t, "spot") {
        ScreenerUniverse::CryptoSpot
    } else if has_word(t, "technology") || has_word(t, "tech") {
        ScreenerUniverse::UsLargeCapTechnology
    } else {
        ScreenerUniverse::UsEquities
    };
    let mut predicates: Vec<ScreenerPredicate> = Vec::new();
    let mut unsupported: Option<String> = None;
    let ghost acc0 = Ok::<(Seq<(ScreenerPredicateField, ScreenerOperator, Seq<char>)>, Option<Seq<char>>), ParseStop>((Seq::empty(), None));
    assert(predicate_views(predicates@) =~= Seq::empty());
    let ra = add_predicate(t, ScreenerPredicateField::RevenueGrowth, &mut predicates);
    match ra {
        Err(e) => {
            return Err(e);
        },
        Ok(Some(m)) => {
            unsupported = Some(m);
        },
        Ok(None) => {},
    }
    let ghost acc1 = fold_step(acc0, ScreenerPredicateField::RevenueGrowth, predicate_step(t@, ScreenerPredicateField::RevenueGrowth));
    assert(acc1 == Ok::<(Seq<(ScreenerPredicateField, ScreenerOperator, Seq<char>)>, Option<Seq<char>>), ParseStop>((predicate_views(predicates@), opt_view(unsupported))));
    let rb = add_predicate(t, ScreenerPredicateField::EstimateRevision, &mut predicates);
    match rb {
        Err(e) => {
            return Err(e);
        },
        Ok(Some(m)) => {
            if unsupported.is_none() {
                unsupported = Some(m);
            }
        },
        Ok(None) => {},
    }
    let ghost acc2 = fold_step(acc1, ScreenerPredicateField::EstimateRevision, predicate_step(t@, ScreenerPredicateField::EstimateRevision));
    assert(acc2 == Ok::<(Seq<(ScreenerPredicateField, ScreenerOperator, Seq<char>)>, Option<Seq<char>>), ParseStop>((predicate_views(predicates@), opt_view(unsupported))));
    let rc = add_predicate(t, ScreenerPredicateField::Rsi, &mut predicates);
    match rc {
        Err(e) => {
            return Err(e);
        },
        Ok(Some(m)) => {
            if unsupported.is_none() {
                unsupported = Some(m);
            }
        },
        Ok(None) => {},
    }
    let ghost acc3 = fold_step(acc2, ScreenerPredicateField::Rsi, predicate_step(t@, ScreenerPredicateField::Rsi));
    assert(acc3 == Ok::<(Seq<(ScreenerPredicateField, ScreenerOperator, Seq<char>)>, Option<Seq<char>>), ParseStop>((predicate_views(predicates@), opt_view(unsupported))));
    let rd = add_predicate(t, ScreenerPredicateField::PriceChange, &mut predicates);
    match rd {
        Err(e) => {
            return Err(e);
        },
        Ok(Some(m)) => {
            if unsupported.is_none() {
                unsupported = Some(m);
            }
        },
        Ok(None) => {},
    }
    assert(predicates_of(t@) == Ok::<(Seq<(ScreenerPredicateField, ScreenerOperator, Seq<char>)>, Option<Seq<char>>), ParseStop>((predicate_views(predicates@), opt_view(unsupported))));
    if unsupported.is_none() {
        unsupported = unsupported_universe_reason(t);
    }
    if unsupported.is_none() {
        unsupported = unsupported_filter_reason(t);
    }
    let (rank_field, direction, rank_reason) = rank_from_text(t);
    if unsupported.is_none() {
        unsupported = rank_reason;
    }
    let (text_limit, limit_reason) = parse_limit(t);
    if unsupported.is_none() {
        unsupported = limit_reason;
    }
    let ghost ps = predicate_views(predicates@);
    assert(opt_view(unsupported) == parse_reason(t@, predicates_of(t@).get_Ok_0().1));
    let filter = match &request.filter_spec {
        Some(f) => copy_filter(f),
        None => FilterSpec { universe, predicates },
    };
    assert(filter_view(filter) == parsed_filter(*request, t@, ps));
    if !filter_valid(&filter) {
        return Err(ParseStop::Invalid);
    }
    let rank = match &request.rank_spec {
        Some(r) => copy_rank(r),
        None => RankSpec { field: rank_field, direction },
    };
    let limit: u32 = match request.limit {
        Some(l) => l,
        None => match text_limit {
            Some(v) => v,
            None => 10,
        },
    };
    let no_predicates = filter.predicates.len() == 0;
    let (state, reason, limitations) = match unsupported {
        Some(m) => {
            let mut lims: Vec<String> = Vec::new();
            lims.push(concat("SCREENER_FILTER_UNSUPPORTED: ", m.as_str()));
            assert(text_views(lims@) =~= seq!["SCREENER_FILTER_UNSUPPORTED: "@ + m@]);
            (ScreenerResultState::Failed, m, lims)
        },
        None => {
            if no_predicates {
                let mut lims: Vec<String> = Vec::new();
                lims.push(owned("SCREENER_FILTER_UNSUPPORTED"));
                assert(text_views(lims@) =~= seq!["SCREENER_FILTER_UNSUPPORTED"@]);
                (
                    ScreenerResultState::Failed,
                    owned("No supported screener predicate was found in the request."),
                    lims,
                )
            } else {
                let lims: Vec<String> = Vec::new();
                assert(text_views(lims@) =~= Seq::<Seq<char>>::empty());
                (
                    ScreenerResultState::Parsed,
                    owned(
                        "Natural-language conditions were parsed into a bounded FilterSpec and RankSpec.",
                    ),
                    lims,
                )
            }
        },
    };
    let revision = revision_for(request, &filter, &rank, limit);
    let applied = applied_conditions(&filter, &rank, limit);
    let candidates: Vec<ScreenerCandidate> = Vec::new();
    let source_ids: Vec<String> = Vec::new();
    let res = ScreenerResult {
        workspace_id: request.workspace_id.clone(),
        operation: request.operation,
        state,
        natural_language: request.natural_language.clone(),
        focus: request.focus,
        filter_spec: Some(filter),
        rank_spec: Some(rank),
        revision: Some(revision),
        applied_conditions: applied,
        candidates,
        candidate_count: 0,
        source_ids,
        provider_timestamp: None,
        received_timestamp: owned(received),
        availability_reason: reason,
        limitations,
        fixture_label: None,
    };
    proof {
        assert(res.candidates@.map_values(|c: ScreenerCandidate| candidate_view(c)) =~= Seq::<CandidateModel>::empty());
        assert(text_views(res.source_ids@) =~= Seq::<Seq<char>>::empty());
    }
    Ok(res)
}

// ----------------------------------------------------------------------------
// Fixture run
// ----------------------------------------------------------------------------

/// A synthetic screener row.
#[derive(Clone, Copy)]
pub struct FixtureRow {
    pub instrument_id: &'static str,
    pub symbol: &'static str,
    pub universe: ScreenerUniverse,
    pub revenue_growth: Option<&'static str>,
    pub estimate_revision: Option<&'static str>,
    pub rsi: Option<&'static str>,
    pub price_change: Option<&'static str>,
    pub quality: &'static str,
    pub revision_strength: &'static str,
    pub momentum: &'static str,
}

pub ghost struct RowModel {
    pub instrument_id: Seq<char>,
    pub symbol: Seq<char>,
    pub universe: ScreenerUniverse,
    pub revenue_growth: Option<Seq<char>>,
    pub estimate_revision: Option<Seq<char>>,
    pub rsi: Option<Seq<char>>,
    pub price_change: Option<Seq<char>>,
    pub quality: Seq<char>,
    pub revision_strength: Seq<char>,
    pub momentum: Seq<char>,
}

pub open spec fn str_opt(o: Option<&str>) -> Option<Seq<char>> {
    match o {
        Some(s) => Some(s@),
        None => None,
    }
}

pub open spec fn row_view(r: FixtureRow) -> RowModel {
    RowModel {
        instrument_id: r.instrument_id@,
        symbol: r.symbol@,
        universe: r.universe,
        revenue_growth: str_opt(r.revenue_growth),
        estimate_revision: str_opt(r.estimate_revision),
        rsi: str_opt(r.rsi),
        price_change: str_opt(r.price_change),
        quality: r.quality@,
        revision_strength: r.revision_strength@,
        momentum: r.momentum@,
    }
}

/// The four synthetic rows: two large-cap technology equities and two
/// crypto spot pairs.
pub open spec fn fixture_row(k: int) -> RowModel {
    if k == 0 {
        RowModel {
            instrument_id: "equity:US:AAPL"@,
            symbol: "AAPL"@,
            universe: ScreenerUniverse::UsLargeCapTechnology,
            revenue_growth: Some("0.22"@),
            estimate_revision: Some("0.08"@),
            rsi: Some("62"@),
            price_change: Some("0.12"@),
            quality: "0.90"@,
            revision_strength: "0.08"@,
            momentum: "0.12"@,
        }
    } else if k == 1 {
        RowModel {
            instrument_id: "equity:US:MSFT"@,
            symbol: "MSFT"@,
            universe: ScreenerUniverse::UsLargeCapTechnology,
            revenue_growth: Some("0.18"@),
            estimate_revision: Some("0.12"@),
            rsi: Some("55"@),
            price_change: Some("0.10"@),
            quality: "0.95"@,
            revision_strength: "0.12"@,
            momentum: "0.10"@,
        }
    } else if k == 2 {
        RowModel {
            instrument_id: "crypto:BTC/USDT:spot"@,
            symbol: "BTC/USDT"@,
            universe: ScreenerUniverse::CryptoSpot,
            revenue_growth: None,
            estimate_revision: None,
            rsi: Some("58"@),
            price_change: Some("0.20"@),
            quality: "0.70"@,
            revision_strength: "0"@,
            momentum: "0.20"@,
        }
    } else {
        RowModel {
            instrument_id: "crypto:ETH/USDT:spot"@,
            symbol: "ETH/USDT"@,
            universe: ScreenerUniverse::CryptoSpot,
            revenue_growth: None,
            estimate_revision: None,
            rsi: Some("64"@),
            price_change: Some("0.07"@),
            quality: "0.65"@,
            revision_strength: "0"@,
            momentum: "0.07"@,
        }
    }
}

fn fixture_row_exec(k: usize) -> (r: FixtureRow)
    requires
        k < 4,
    ensures
        row_view(r) == fixture_row(k as int),
{
    if k == 0 {
        FixtureRow {
            instrument_id: "equity:US:AAPL",
            symbol: "AAPL",
            universe: ScreenerUniverse::UsLargeCapTechnology,
            revenue_growth: Some("0.22"),
            estimate_revision: Some("0.08"),
            rsi: Some("62"),
            price_change: Some("0.12"),
            quality: "0.90",
            revision_strength: "0.08",
            momentum: "0.12",
        }
    } else if k == 1 {
        FixtureRow {
            instrument_id: "equity:US:MSFT",
            symbol: "MSFT",
            universe: ScreenerUniverse::UsLargeCapTechnology,
            revenue_growth: Some("0.18"),
            estimate_revision: Some("0.12"),
            rsi: Some("55"),
            price_change: Some("0.10"),
            quality: "0.95",
            revision_strength: "0.12",
            momentum: "0.10",
        }
    } else if k == 2 {
        FixtureRow {
            instrument_id: "crypto:BTC/USDT:spot",
            symbol: "BTC/USDT",
            universe: ScreenerUniverse::CryptoSpot,
            revenue_growth: None,
            estimate_revision: None,
            rsi: Some("58"),
            price_change: Some("0.20"),
            quality: "0.70",
            revision_strength: "0",
            momentum: "0.20",
        }
    } else {
        FixtureRow {
            instrument_id: "crypto:ETH/USDT:spot",
            symbol: "ETH/USDT",
            universe: ScreenerUniverse::CryptoSpot,
            revenue_growth: None,
            estimate_revision: None,
            rsi: Some("64"),
            price_change: Some("0.07"),
            quality: "0.65",
            revision_strength: "0",
            momentum: "0.07",
        }
    }
}

/// A row belongs to the universe a filter asks for (both equity universes
/// read the large-cap technology rows).
pub open spec fn row_in_universe(r: RowModel, u: ScreenerUniverse) -> bool {
    match u {
        ScreenerUniverse::CryptoSpot => r.universe == ScreenerUniverse::CryptoSpot,
        _ => r.universe == ScreenerUniverse::UsLargeCapTechnology,
    }
}

pub open spec fn feature_of(r: RowModel, f: ScreenerPredicateField) -> Option<Seq<char>> {
    match f {
        ScreenerPredicateField::RevenueGrowth => r.revenue_growth,
        ScreenerPredicateField::EstimateRevision => r.estimate_revision,
        ScreenerPredicateField::Rsi => r.rsi,
        ScreenerPredicateField::PriceChange => r.price_change,
    }
}

/// The numeric order of two decimal texts, when both are accepted.
pub open spec fn numeric_order(a: Seq<char>, b: Seq<char>) -> Option<Comparison> {
    if decimal_accepts(a) && decimal_accepts(b) {
        Some(value_order(text_value(a), text_value(b)))
    } else {
        None
    }
}

fn numeric_order_exec(a: &str, b: &str) -> (r: Option<Comparison>)
    ensures
        r == numeric_order(a@, b@),
{
    match (parse_amount(a), parse_amount(b)) {
        (Some(x), Some(y)) => Some(compare_amounts(&x, &y)),
        _ => None,
    }
}

/// A value satisfies a comparison against a threshold.
pub open spec fn satisfies(value: Seq<char>, op: ScreenerOperator, threshold: Seq<char>) -> bool {
    match numeric_order(value, threshold) {
        None => false,
        Some(o) => match op {
            ScreenerOperator::GreaterThan => o == Comparison::Greater,
            ScreenerOperator::GreaterOrEqual => o != Comparison::Less,
            ScreenerOperator::LessThan => o == Comparison::Less,
            ScreenerOperator::LessOrEqual => o != Comparison::Greater,
        },
    }
}

/// A predicate compares decimal values by their numbers: with `x` and `y`
/// the value and threshold brought to a common scale (each one's units
/// times ten to the other's scale), greater-than holds exactly when
/// `x > y`, at-least when `x >= y`, less-than when `x < y` and at-most
/// when `x <= y`; a value or threshold that is not a decimal satisfies
/// nothing.
pub proof fn lemma_satisfies_compares_numbers(value: Seq<char>, threshold: Seq<char>)
    ensures
        !(decimal_accepts(value) && decimal_accepts(threshold)) ==> !satisfies(
            value,
            ScreenerOperator::GreaterThan,
            threshold,
        ) && !satisfies(value, ScreenerOperator::GreaterOrEqual, threshold) && !satisfies(
            value,
            ScreenerOperator::LessThan,
            threshold,
        ) && !satisfies(value, ScreenerOperator::LessOrEqual, threshold),
        decimal_accepts(value) && decimal_accepts(threshold) ==> {
            let a = text_value(value);
            let b = text_value(threshold);
            let x = a.0 * pow10(b.1);
            let y = b.0 * pow10(a.1);
            &&& satisfies(value, ScreenerOperator::GreaterThan, threshold) == (x > y)
            &&& satisfies(value, ScreenerOperator::GreaterOrEqual, threshold) == (x >= y)
            &&& satisfies(value, ScreenerOperator::LessThan, threshold) == (x < y)
            &&& satisfies(value, ScreenerOperator::LessOrEqual, threshold) == (x <= y)
        },
{
}

/// A row has every field the predicates compare, each satisfying its comparison.
pub open spec fn row_matches(
    r: RowModel,
    ps: Seq<(ScreenerPredicateField, ScreenerOperator, Seq<char>)>,
) -> bool {
    forall|i: int|
        0 <= i < ps.len() ==> (match feature_of(r, #[trigger] ps[i].0) {
            Some(v) => satisfies(v, ps[i].1, ps[i].2),
            None => false,
        })
}

/// A row matches a filter's predicates exactly when, for each predicate,
/// the row reports the compared field and its value satisfies the
/// comparison against the threshold.
pub proof fn lemma_row_matches_each_predicate(
    r: RowModel,
    ps: Seq<(ScreenerPredicateField, ScreenerOperator, Seq<char>)>,
)
    ensures
        row_matches(r, ps) <==> forall|i: int|
            0 <= i < ps.len() ==> feature_of(r, #[trigger] ps[i].0) is Some && satisfies(
                feature_of(r, ps[i].0)->0,
                ps[i].1,
                ps[i].2,
            ),
{
}

/// The fixture rows (from the `k`-th on) that a filter selects, in order.
pub open spec fn selected_rows(
    f: (ScreenerUniverse, Seq<(ScreenerPredicateField, ScreenerOperator, Seq<char>)>),
    k: int,
) -> Seq<RowModel>
    decreases 4 - k,
{
    if k < 0 || k >= 4 {
        Seq::empty()
    } else if row_in_universe(fixture_row(k), f.0) && row_matches(fixture_row(k), f.1) {
        seq![fixture_row(k)] + selected_rows(f, k + 1)
    } else {
        selected_rows(f, k + 1)
    }
}

/// The value a row is ranked by.
pub open spec fn rank_value(r: RowModel, f: ScreenerRankField) -> Seq<char> {
    match f {
        ScreenerRankField::Quality => r.quality,
        ScreenerRankField::RevisionStrength => r.revision_strength,
        ScreenerRankField::Momentum => r.momentum,
    }
}

/// Row `a` ranks strictly after row `b`: its value is larger (ascending) or
/// smaller (descending).
pub open spec fn ranks_after(a: RowModel, b: RowModel, rank: (ScreenerRankField, ScreenerDirection)) -> bool {
    match numeric_order(rank_value(a, rank.0), rank_value(b, rank.0)) {
        Some(o) => if rank.1 == ScreenerDirection::Desc {
            o == Comparison::Less
        } else {
            o == Comparison::Greater
        },
        None => false,
    }
}

/// Stable insertion of a row: after every row it does not rank before.
pub open spec fn insert_ranked(s: Seq<RowModel>, x: RowModel, rank: (ScreenerRankField, ScreenerDirection)) -> Seq<RowModel>
    decreases s.len(),
{
    if s.len() == 0 {
        seq![x]
    } else if !ranks_after(s.last(), x, rank) {
        s.push(x)
    } else {
        insert_ranked(s.drop_last(), x, rank).push(s.last())
    }
}

/// The stable sort of rows by rank.
pub open spec fn sort_ranked(s: Seq<RowModel>, rank: (ScreenerRankField, ScreenerDirection)) -> Seq<RowModel>
    decreases s.len(),
{
    if s.len() == 0 {
        Seq::empty()
    } else {
        insert_ranked(sort_ranked(s.drop_last(), rank), s.last(), rank)
    }
}

/// The features a row reports, in field order, without the missing ones.
pub open spec fn row_features(r: RowModel) -> Seq<(ScreenerFeatureField, Seq<char>)> {
    let opt = |f: ScreenerFeatureField, v: Option<Seq<char>>| match v {
        Some(x) => seq![(f, x)],
        None => Seq::<(ScreenerFeatureField, Seq<char>)>::empty(),
    };
    opt(ScreenerFeatureField::RevenueGrowth, r.revenue_growth) + opt(ScreenerFeatureField::EstimateRevision, r.estimate_revision)
        + opt(ScreenerFeatureField::Rsi, r.rsi) + opt(ScreenerFeatureField::PriceChange, r.price_change) + seq![
        (ScreenerFeatureField::Quality, r.quality),
        (ScreenerFeatureField::RevisionStrength, r.revision_strength),
        (ScreenerFeatureField::Momentum, r.momentum),
    ]
}

pub open spec fn fixture_source() -> Seq<char> {
    "FX-SCREENER"@
}

pub open spec fn fixture_timestamp() -> Seq<char> {
    "2026-09-14T00:00:00Z"@
}

pub open spec fn fixture_limitation() -> Seq<char> {
    "Synthetic screener fixture; provider entitlement and execution authority are not established."@
}

/// The candidate a row becomes at a rank.
pub open spec fn row_candidate(r: RowModel, rank: int) -> CandidateModel {
    CandidateModel {
        instrument_id: r.instrument_id,
        symbol: r.symbol,
        rank,
        features: row_features(r),
        source_id: fixture_source(),
        provider_timestamp: Some(fixture_timestamp()),
        received_timestamp: fixture_timestamp(),
        freshness: ResearchFreshness::Healthy,
        quality: ResearchQuality::Degraded,
        limitation: Some(fixture_limitation()),
    }
}

/// The ranked candidates of a fixture run: the selected rows sorted by rank,
/// numbered from one, at most `limit` of them.
pub open spec fn fixture_candidates(
    f: (ScreenerUniverse, Seq<(ScreenerPredicateField, ScreenerOperator, Seq<char>)>),
    rank: (ScreenerRankField, ScreenerDirection),
    limit: int,
) -> Seq<CandidateModel> {
    let rows = sort_ranked(selected_rows(f, 0), rank);
    let n = if rows.len() <= limit {
        rows.len() as int
    } else {
        limit
    };
    Seq::new(n as nat, |i: int| row_candidate(rows[i], i + 1))
}

/// The result of a fixture run.
pub open spec fn fixture_model(
    req: ScreenerRequest,
    f: (ScreenerUniverse, Seq<(ScreenerPredicateField, ScreenerOperator, Seq<char>)>),
    rank: (ScreenerRankField, ScreenerDirection),
    revision: Seq<char>,
    limit: int,
) -> ResultModel {
    let cands = fixture_candidates(f, rank, limit);
    ResultModel {
        workspace_id: req.workspace_id@,
        operation: req.operation,
        state: if cands.len() == 0 {
            ScreenerResultState::Empty
        } else {
            ScreenerResultState::Completed
        },
        natural_language: req.natural_language@,
        focus: req.focus,
        filter: Some(f),
        rank: Some(rank),
        revision: Some(revision),
        applied: applied_lines(f, rank, limit as nat),
        candidates: cands,
        candidate_count: cands.len() as int,
        source_ids: seq![fixture_source()],
        provider_timestamp: Some(fixture_timestamp()),
        received_timestamp: fixture_timestamp(),
        reason: "Synthetic fixture rows are available for contract verification only."@,
        limitations: seq![fixture_limitation()],
        fixture_label: Some("SYNTHETIC_SCREENER_FIXTURE"@),
    }
}

pub open spec fn row_views(v: Seq<FixtureRow>) -> Seq<RowModel> {
    v.map_values(|r: FixtureRow| row_view(r))
}

fn feature_exec(r: &FixtureRow, f: ScreenerPredicateField) -> (v: Option<&'static str>)
    ensures
        str_opt(v) == feature_of(row_view(*r), f),
{
    match f {
        ScreenerPredicateField::RevenueGrowth => r.revenue_growth,
        ScreenerPredicateField::EstimateRevision => r.estimate_revision,
        ScreenerPredicateField::Rsi => r.rsi,
        ScreenerPredicateField::PriceChange => r.price_change,
    }
}

fn row_matches_exec(r: &FixtureRow, ps: &Vec<ScreenerPredicate>) -> (b: bool)
    ensures
        b == row_matches(row_view(*r), predicate_views(ps@)),
{
    let mut i: usize = 0;
    while i < ps.len()
        invariant
            i <= ps@.len(),
            forall|j: int|
                0 <= j < i ==> (match feature_of(row_view(*r), #[trigger] predicate_views(ps@)[j].0) {
                    Some(v) => satisfies(v, predicate_views(ps@)[j].1, predicate_views(ps@)[j].2),
                    None => false,
                }),
        decreases ps@.len() - i,
    {
        let p = &ps[i];
        assert(predicate_views(ps@)[i as int] == (p.field, p.operator, p.threshold@));
        let ok = match feature_exec(r, p.field) {
            Some(v) => match numeric_order_exec(v, p.threshold.as_str()) {
                Some(o) => match p.operator {
                    ScreenerOperator::GreaterThan => o == Comparison::Greater,
                    ScreenerOperator::GreaterOrEqual => o != Comparison::Less,
                    ScreenerOperator::LessThan => o == Comparison::Less,
                    ScreenerOperator::LessOrEqual => o != Comparison::Greater,
                },
                None => false,
            },
            None => false,
        };
        if !ok {
            assert(!row_matches(row_view(*r), predicate_views(ps@))) by {
                let k = i as int;
                assert(match feature_of(row_view(*r), predicate_views(ps@)[k].0) {
                    Some(v) => !satisfies(v, predicate_views(ps@)[k].1, predicate_views(ps@)[k].2),
                    None => true,
                });
            }
            return false;
        }
        i = i + 1;
    }
    true
}

fn selected_rows_exec(f: &FilterSpec) -> (v: Vec<FixtureRow>)
    ensures
        row_views(v@) == selected_rows(filter_view(*f), 0),
{
    let mut out: Vec<FixtureRow> = Vec::new();
    let mut k: usize = 4;
    assert(row_views(out@) =~= selected_rows(filter_view(*f), 4));
    while k > 0
        invariant
            k <= 4,
            row_views(out@) == selected_rows(filter_view(*f), k as int),
        decreases k,
    {
        k = k - 1;
        let row = fixture_row_exec(k);
        let in_universe = match f.universe {
            ScreenerUniverse::CryptoSpot => row.universe == ScreenerUniverse::CryptoSpot,
            _ => row.universe == ScreenerUniverse::UsLargeCapTechnology,
        };
        if in_universe && row_matches_exec(&row, &f.predicates) {
            let ghost before = out@;
            out.insert(0, row);
            assert(row_views(out@) =~= seq![row_view(row)] + row_views(before));
        }
    }
    out
}

fn rank_value_exec(r: &FixtureRow, f: ScreenerRankField) -> (v: &'static str)
    ensures
        v@ == rank_value(row_view(*r), f),
{
    match f {
        ScreenerRankField::Quality => r.quality,
        ScreenerRankField::RevisionStrength => r.revision_strength,
        ScreenerRankField::Momentum => r.momentum,
    }
}

fn ranks_after_exec(a: &FixtureRow, b: &FixtureRow, rank: &RankSpec) -> (r: bool)
    ensures
        r == ranks_after(row_view(*a), row_view(*b), rank_view(*rank)),
{
    match numeric_order_exec(rank_value_exec(a, rank.field), rank_value_exec(b, rank.field)) {
        Some(o) => if rank.direction == ScreenerDirection::Desc {
            o == Comparison::Less
        } else {
            o == Comparison::Greater
        },
        None => false,
    }
}

proof fn lemma_insert_ranked_at(s: Seq<RowModel>, x: RowModel, rank: (ScreenerRankField, ScreenerDirection), j: int)
    requires
        0 <= j <= s.len(),
        forall|k: int| j <= k < s.len() ==> ranks_after(#[trigger] s[k], x, rank),
        j > 0 ==> !ranks_after(s[j - 1], x, rank),
    ensures
        insert_ranked(s, x, rank) == s.insert(j, x),
    decreases s.len(),
{
    if s.len() == 0 {
        assert(s.insert(j, x) =~= seq![x]);
    } else if j == s.len() {
        assert(s.insert(j, x) =~= s.push(x));
    } else {
        let d = s.drop_last();
        assert(ranks_after(s.last(), x, rank));
        assert forall|k: int| j <= k < d.len() implies ranks_after(#[trigger] d[k], x, rank) by {
            assert(d[k] == s[k]);
        }
        if j > 0 {
            assert(d[j - 1] == s[j - 1]);
        }
        lemma_insert_ranked_at(d, x, rank, j);
        assert(d.insert(j, x).push(s.last()) =~= s.insert(j, x));
    }
}

fn sort_rows(items: Vec<FixtureRow>, rank: &RankSpec) -> (r: Vec<FixtureRow>)
    ensures
        row_views(r@) == sort_ranked(row_views(items@), rank_view(*rank)),
{
    let ghost orig = row_views(items@);
    let n = items.len();
    let mut rest = items;
    let mut out: Vec<FixtureRow> = Vec::new();
    let mut k: usize = 0;
    assert(row_views(rest@) =~= orig.subrange(0, n as int));
    while rest.len() > 0
        invariant
            k + rest@.len() == n == orig.len(),
            row_views(rest@) == orig.subrange(k as int, n as int),
            row_views(out@) == sort_ranked(orig.subrange(0, k as int), rank_view(*rank)),
        decreases rest@.len(),
    {
        let ghost old_rest = rest@;
        let x = rest.remove(0);
        assert(row_view(x) == orig[k as int]) by {
            assert(row_views(old_rest)[0] == orig.subrange(k as int, n as int)[0]);
        }
        let mut j = out.len();
        while j > 0 && ranks_after_exec(&out[j - 1], &x, rank)
            invariant
                j <= out@.len(),
                forall|t: int| j <= t < out@.len() ==> ranks_after(#[trigger] row_views(out@)[t], row_view(x), rank_view(*rank)),
            decreases j,
        {
            j = j - 1;
        }
        proof {
            lemma_insert_ranked_at(row_views(out@), row_view(x), rank_view(*rank), j as int);
            let next = orig.subrange(0, k + 1);
            assert(next.drop_last() =~= orig.subrange(0, k as int));
            assert(next.last() == row_view(x));
        }
        let ghost before = out@;
        out.insert(j, x);
        assert(row_views(out@) =~= row_views(before).insert(j as int, row_view(x)));
        k = k + 1;
        proof {
            assert(row_views(rest@) =~= orig.subrange(k as int, n as int)) by {
                assert forall|t: int| 0 <= t < rest@.len() implies row_views(rest@)[t] == orig.subrange(k as int, n as int)[t] by {
                    assert(rest@[t] == old_rest[t + 1]);
                    assert(row_views(old_rest)[t + 1] == orig.subrange(k - 1, n as int)[t + 1]);
                }
            }
        }
    }
    assert(orig.subrange(0, n as int) =~= orig);
    out
}

fn feature_value(field: ScreenerFeatureField, v: &str) -> (r: ScreenerFeature)
    ensures
        (r.field, r.value@) == (field, v@),
{
    ScreenerFeature { field, value: owned(v) }
}

pub open spec fn feature_views(v: Seq<ScreenerFeature>) -> Seq<(ScreenerFeatureField, Seq<char>)> {
    v.map_values(|f: ScreenerFeature| (f.field, f.value@))
}

fn push_feature(out: &mut Vec<ScreenerFeature>, field: ScreenerFeatureField, v: Option<&'static str>)
    ensures
        feature_views(final(out)@) == feature_views(old(out)@) + match str_opt(v) {
            Some(x) => seq![(field, x)],
            None => Seq::<(ScreenerFeatureField, Seq<char>)>::empty(),
        },
{
    match v {
        Some(x) => {
            let ghost before = out@;
            out.push(feature_value(field, x));
            assert(feature_views(out@) =~= feature_views(before) + seq![(field, x@)]);
        },
        None => {
            assert(feature_views(out@) =~= feature_views(out@) + Seq::<(ScreenerFeatureField, Seq<char>)>::empty());
        },
    }
}

fn row_candidate_exec(r: &FixtureRow, rank: u32) -> (c: ScreenerCandidate)
    ensures
        candidate_view(c) == row_candidate(row_view(*r), rank as int),
{
    let mut features: Vec<ScreenerFeature> = Vec::new();
    push_feature(&mut features, ScreenerFeatureField::RevenueGrowth, r.revenue_growth);
    push_feature(&mut features, ScreenerFeatureField::EstimateRevision, r.estimate_revision);
    push_feature(&mut features, ScreenerFeatureField::Rsi, r.rsi);
    push_feature(&mut features, ScreenerFeatureField::PriceChange, r.price_change);
    push_feature(&mut features, ScreenerFeatureField::Quality, Some(r.quality));
    push_feature(&mut features, ScreenerFeatureField::RevisionStrength, Some(r.revision_strength));
    push_feature(&mut features, ScreenerFeatureField::Momentum, Some(r.momentum));
    let c = ScreenerCandidate {
        instrument_id: owned(r.instrument_id),
        symbol: owned(r.symbol),
        rank,
        features,
        provenance: ScreenerProvenance {
            source_id: owned("FX-SCREENER"),
            provider_timestamp: Some(owned("2026-09-14T00:00:00Z")),
            received_timestamp: owned("2026-09-14T00:00:00Z"),
            freshness: ResearchFreshness::Healthy,
            quality: ResearchQuality::Degraded,
        },
        limitation: Some(
            owned(
                "Synthetic screener fixture; provider entitlement and execution authority are not established.",
            ),
        ),
    };
    assert(c.features@.map_values(|f: ScreenerFeature| (f.field, f.value@)) =~= row_features(row_view(*r)));
    c
}

fn fixture_run(request: &ScreenerRequest, filter: &FilterSpec, rank: &RankSpec, revision: String, limit: u32) -> (r: ScreenerResult)
    requires
        1 <= limit <= 50,
    ensures
        result_view(r) == fixture_model(*request, filter_view(*filter), rank_view(*rank), revision@, limit as int),
{
    let rows = sort_rows(selected_rows_exec(filter), rank);
    let n: usize = if rows.len() <= limit as usize {
        rows.len()
    } else {
        limit as usize
    };
    let ghost want = fixture_candidates(filter_view(*filter), rank_view(*rank), limit as int);
    let mut candidates: Vec<ScreenerCandidate> = Vec::new();
    let mut i: usize = 0;
    while i < n
        invariant
            n <= rows@.len(),
            n <= 50,
            want.len() == n,
            row_views(rows@) == sort_ranked(selected_rows(filter_view(*filter), 0), rank_view(*rank)),
            want == fixture_candidates(filter_view(*filter), rank_view(*rank), limit as int),
            i <= n,
            candidates@.len() == i,
            forall|j: int| 0 <= j < i ==> candidate_view(#[trigger] candidates@[j]) == want[j],
        decreases n - i,
    {
        let c = row_candidate_exec(&rows[i], (i + 1) as u32);
        assert(row_view(rows@[i as int]) == row_views(rows@)[i as int]);
        candidates.push(c);
        i = i + 1;
    }
    let state = if n == 0 {
        ScreenerResultState::Empty
    } else {
        ScreenerResultState::Completed
    };
    let mut source_ids: Vec<String> = Vec::new();
    source_ids.push(owned("FX-SCREENER"));
    let mut limitations: Vec<String> = Vec::new();
    limitations.push(
        owned(
            "Synthetic screener fixture; provider entitlement and execution authority are not established.",
        ),
    );
    let res = ScreenerResult {
        workspace_id: request.workspace_id.clone(),
        operation: request.operation,
        state,
        natural_language: request.natural_language.clone(),
        focus: request.focus,
        filter_spec: Some(copy_filter(filter)),
        rank_spec: Some(copy_rank(rank)),
        revision: Some(revision),
        applied_conditions: applied_conditions(filter, rank, limit),
        candidates,
        candidate_count: n as u32,
        source_ids,
        provider_timestamp: Some(owned("2026-09-14T00:00:00Z")),
        received_timestamp: owned("2026-09-14T00:00:00Z"),
        availability_reason: owned("Synthetic fixture rows are available for contract verification only."),
        limitations,
        fixture_label: Some(owned("SYNTHETIC_SCREENER_FIXTURE")),
    };
    proof {
        assert(res.candidates@.map_values(|c: ScreenerCandidate| candidate_view(c)) =~= want);
        assert(text_views(res.source_ids@) =~= seq![fixture_source()]);
        assert(text_views(res.limitations@) =~= seq![fixture_limitation()]);
    }
    res
}

// ----------------------------------------------------------------------------
// Blocked run and the screener entry points
// ----------------------------------------------------------------------------

/// The provider sources a filter needs: equity data when it filters the
/// equity universes, fundamentals when it compares revenue growth or
/// estimate revisions.
pub open spec fn required_sources(f: (ScreenerUniverse, Seq<(ScreenerPredicateField, ScreenerOperator, Seq<char>)>)) -> Seq<Seq<char>> {
    let equity = (f.0 == ScreenerUniverse::UsEquities || f.0 == ScreenerUniverse::UsLargeCapTechnology)
        && f.1.len() > 0;
    let fundamentals = exists|i: int|
        0 <= i < f.1.len() && (#[trigger] f.1[i].0 == ScreenerPredicateField::RevenueGrowth || f.1[i].0
            == ScreenerPredicateField::EstimateRevision);
    (if equity {
        seq!["OD-001"@]
    } else {
        Seq::empty()
    }) + (if fundamentals {
        seq!["OD-003"@]
    } else {
        Seq::empty()
    })
}

/// The status of the first catalogue entry with the source id.
pub open spec fn first_status(sources: Seq<DataSourceEntry>, id: Seq<char>, k: int) -> Option<DataSourceStatus>
    decreases sources.len() - k,
{
    if k < 0 || k >= sources.len() {
        None
    } else if sources[k].source_id@ == id {
        Some(sources[k].status)
    } else {
        first_status(sources, id, k + 1)
    }
}

/// The required sources that are not listed as available.
pub open spec fn missing_sources(required: Seq<Seq<char>>, sources: Seq<DataSourceEntry>) -> Seq<Seq<char>>
    decreases required.len(),
{
    if required.len() == 0 {
        Seq::empty()
    } else {
        let rest = missing_sources(required.drop_last(), sources);
        if first_status(sources, required.last(), 0) == Some(DataSourceStatus::Available) {
            rest
        } else {
            rest.push(required.last())
        }
    }
}

/// Texts joined with `, `.
pub open spec fn join_comma(v: Seq<Seq<char>>) -> Seq<char>
    decreases v.len(),
{
    if v.len() == 0 {
        Seq::empty()
    } else if v.len() == 1 {
        v[0]
    } else {
        join_comma(v.drop_last()) + ", "@ + v.last()
    }
}

/// The result of a run that no provider serves: blocked, naming the
/// required sources and those not available.
pub open spec fn blocked_model(
    req: ScreenerRequest,
    f: (ScreenerUniverse, Seq<(ScreenerPredicateField, ScreenerOperator, Seq<char>)>),
    rank: (ScreenerRankField, ScreenerDirection),
    revision: Seq<char>,
    sources: Seq<DataSourceEntry>,
    received: Seq<char>,
) -> ResultModel {
    let required = required_sources(f);
    let missing = missing_sources(required, sources);
    let limit: nat = match req.limit {
        Some(l) => l as nat,
        None => 10,
    };
    ResultModel {
        workspace_id: req.workspace_id@,
        operation: req.operation,
        state: ScreenerResultState::BlockedExternal,
        natural_language: req.natural_language@,
        focus: req.focus,
        filter: Some(f),
        rank: Some(rank),
        revision: Some(revision),
        applied: applied_lines(f, rank, limit),
        candidates: Seq::empty(),
        candidate_count: 0,
        source_ids: required,
        provider_timestamp: None,
        received_timestamp: received,
        reason: if missing.len() == 0 {
            "Provider screener adapters are not configured; no network request was made."@
        } else {
            "Required source(s) unavailable or unverified: "@ + join_comma(missing) + "."@
        },
        limitations: seq!["No external provider call is made by this read-only slice."@],
        fixture_label: None,
    }
}

/// Where parsing a valid request stops, if it does.
pub open spec fn parse_stop(req: ScreenerRequest, t: Seq<char>) -> Option<ParseStop> {
    match predicates_of(t) {
        Err(e) => Some(e),
        Ok((ps, _)) => if !filter_ok(parsed_filter(req, t, ps)) {
            Some(ParseStop::Invalid)
        } else {
            None
        },
    }
}

/// The request is valid and its text would be cut inside a multi-byte
/// character (96 bytes after a field name), where the screener cannot
/// answer.
pub open spec fn cut_inside_char(req: ScreenerRequest, t: Seq<char>) -> bool {
    request_ok(req) && parse_stop(req, t) == Some(ParseStop::SplitChar)
}

/// The screener's answer to a request whose lowercased text is `t`: the
/// parse, for a parse request or a text that cannot be screened; else,
/// for a run that carries the parsed filter, ranking and current revision,
/// the fixture result or the blocked result; or the error code.
pub open spec fn screen_model(
    req: ScreenerRequest,
    t: Seq<char>,
    sources: Seq<DataSourceEntry>,
    received: Seq<char>,
    fixture: bool,
) -> Result<ResultModel, Seq<char>> {
    if !request_ok(req) {
        Err("IPC_PAYLOAD_INVALID"@)
    } else {
        match parse_model(req, t, received) {
            Err(_) => Err("IPC_PAYLOAD_INVALID"@),
            Ok(p) => if req.operation == ScreenerOperation::Parse || p.state
                != ScreenerResultState::Parsed {
                Ok(p)
            } else {
                match (req.filter_spec, req.rank_spec) {
                    (Some(f), Some(r)) => if !(req.revision matches Some(v) && Some(v@) == p.revision) {
                        Err("SCREENER_REVISION_STALE"@)
                    } else {
                        let limit = parsed_limit(req, t);
                        let revision = p.revision->0;
                        if !(1 <= limit <= 50) {
                            Err("IPC_PAYLOAD_INVALID"@)
                        } else if !fixture {
                            Ok(blocked_model(req, filter_view(f), rank_view(r), revision, sources, received))
                        } else {
                            Ok(fixture_model(req, filter_view(f), rank_view(r), revision, limit))
                        }
                    },
                    _ => Err("IPC_PAYLOAD_INVALID"@),
                }
            },
        }
    }
}

fn first_status_exec(sources: &[DataSourceEntry], id: &str) -> (r: Option<DataSourceStatus>)
    ensures
        r == first_status(sources@, id@, 0),
{
    let mut k: usize = 0;
    while k < sources.len()
        invariant
            k <= sources@.len(),
            first_status(sources@, id@, 0) == first_status(sources@, id@, k as int),
        decreases sources@.len() - k,
    {
        if str_eq(sources[k].source_id.as_str(), id) {
            return Some(sources[k].status);
        }
        k = k + 1;
    }
    None
}

fn blocked_run(
    request: &ScreenerRequest,
    filter: &FilterSpec,
    rank: &RankSpec,
    revision: String,
    sources: &[DataSourceEntry],
    received: &str,
) -> (r: ScreenerResult)
    ensures
        result_view(r) == blocked_model(*request, filter_view(*filter), rank_view(*rank), revision@, sources@, received@),
{
    let equity = (filter.universe == ScreenerUniverse::UsEquities || filter.universe
        == ScreenerUniverse::UsLargeCapTechnology) && filter.predicates.len() > 0;
    let mut fundamentals = false;
    let mut i: usize = 0;
    while i < filter.predicates.len()
        invariant
            i <= filter.predicates@.len(),
            fundamentals == exists|j: int|
                0 <= j < i && (#[trigger] filter_view(*filter).1[j].0 == ScreenerPredicateField::RevenueGrowth
                    || filter_view(*filter).1[j].0 == ScreenerPredicateField::EstimateRevision),
        decreases filter.predicates@.len() - i,
    {
        let f = filter.predicates[i].field;
        assert(filter_view(*filter).1[i as int].0 == f);
        if f == ScreenerPredicateField::RevenueGrowth || f == ScreenerPredicateField::EstimateRevision {
            fundamentals = true;
        }
        i = i + 1;
    }
    let mut required: Vec<String> = Vec::new();
    if equity {
        required.push(owned("OD-001"));
    }
    if fundamentals {
        required.push(owned("OD-003"));
    }
    let ghost req_view = required_sources(filter_view(*filter));
    assert(text_views(required@) =~= req_view);
    let mut missing: Vec<String> = Vec::new();
    let mut k: usize = 0;
    while k < required.len()
        invariant
            k <= required@.len(),
            text_views(required@) == req_view,
            text_views(missing@) == missing_sources(req_view.subrange(0, k as int), sources@),
        decreases required@.len() - k,
    {
        let status = first_status_exec(sources, required[k].as_str());
        proof {
            assert(req_view.subrange(0, k + 1).drop_last() =~= req_view.subrange(0, k as int));
            assert(req_view[k as int] == required@[k as int]@);
        }
        if status != Some(DataSourceStatus::Available) {
            let ghost before = missing@;
            missing.push(required[k].clone());
            assert(text_views(missing@) =~= text_views(before).push(required@[k as int]@));
        }
        k = k + 1;
    }
    assert(req_view.subrange(0, req_view.len() as int) =~= req_view);
    let reason = if missing.len() == 0 {
        owned("Provider screener adapters are not configured; no network request was made.")
    } else {
        let mut m = owned("Required source(s) unavailable or unverified: ");
        let mut j: usize = 0;
        let ghost start = m@;
        while j < missing.len()
            invariant
                j <= missing@.len(),
                m@ == start + join_comma(text_views(missing@).subrange(0, j as int)),
            decreases missing@.len() - j,
        {
            if j > 0 {
                append(&mut m, ", ");
            }
            append(&mut m, missing[j].as_str());
            j = j + 1;
            proof {
                let cur = text_views(missing@).subrange(0, j as int);
                assert(cur.drop_last() =~= text_views(missing@).subrange(0, j - 1));
                assert(m@ =~= start + join_comma(cur));
            }
        }
        append(&mut m, ".");
        assert(text_views(missing@).subrange(0, missing@.len() as int) =~= text_views(missing@));
        m
    };
    let limit: u32 = match request.limit {
        Some(l) => l,
        None => 10,
    };
    let mut limitations: Vec<String> = Vec::new();
    limitations.push(owned("No external provider call is made by this read-only slice."));
    let res = ScreenerResult {
        workspace_id: request.workspace_id.clone(),
        operation: request.operation,
        state: ScreenerResultState::BlockedExternal,
        natural_language: request.natural_language.clone(),
        focus: request.focus,
        filter_spec: Some(copy_filter(filter)),
        rank_spec: Some(copy_rank(rank)),
        revision: Some(revision),
        applied_conditions: applied_conditions(filter, rank, limit),
        candidates: Vec::new(),
        candidate_count: 0,
        source_ids: required,
        provider_timestamp: None,
        received_timestamp: owned(received),
        availability_reason: reason,
        limitations,
        fixture_label: None,
    };
    proof {
        assert(res.candidates@.map_values(|c: ScreenerCandidate| candidate_view(c)) =~= Seq::<CandidateModel>::empty());
        assert(text_views(res.limitations@) =~= seq!["No external provider call is made by this read-only slice."@]);
    }
    res
}

/// The screener on a request whose natural-language text, lowercased, is
/// `lowered` (see `screen_model`).
pub fn screen_lowered(
    request: &ScreenerRequest,
    lowered: &str,
    sources: &[DataSourceEntry],
    received_timestamp: &str,
    fixture: bool,
) -> (r: Result<ScreenerResult, TradeXError>)
    requires
        !cut_inside_char(*request, lowered@),
    ensures
        match screen_model(*request, lowered@, sources@, received_timestamp@, fixture) {
            Ok(m) => r matches Ok(res) && result_view(res) == m,
            Err(code) => r matches Err(e) && is_catalog_error(e, code),
        },
{
    if !request_valid(request) {
        return Err(TradeXError::new("IPC_PAYLOAD_INVALID"));
    }
    let t = chars(lowered);
    let parsed = match parse(request, &t, received_timestamp) {
        Ok(p) => p,
        Err(_) => {
            return Err(TradeXError::new("IPC_PAYLOAD_INVALID"));
        },
    };
    if request.operation == ScreenerOperation::Parse || parsed.state != ScreenerResultState::Parsed {
        return Ok(parsed);
    }
    let filter = match &request.filter_spec {
        Some(f) => f,
        None => {
            return Err(TradeXError::new("IPC_PAYLOAD_INVALID"));
        },
    };
    let rank = match &request.rank_spec {
        Some(r) => r,
        None => {
            return Err(TradeXError::new("IPC_PAYLOAD_INVALID"));
        },
    };
    let expected = match &parsed.revision {
        Some(v) => v.clone(),
        None => {
            return Err(TradeXError::new("IPC_PAYLOAD_INVALID"));
        },
    };
    let current = match &request.revision {
        Some(v) => str_eq(v.as_str(), expected.as_str()),
        None => false,
    };
    if !current {
        return Err(TradeXError::new("SCREENER_REVISION_STALE"));
    }
    let (text_limit, _) = parse_limit(&t);
    let limit: u32 = match request.limit {
        Some(l) => l,
        None => match text_limit {
            Some(v) => v,
            None => 10,
        },
    };
    if limit == 0 || limit > 50 {
        return Err(TradeXError::new("IPC_PAYLOAD_INVALID"));
    }
    if !fixture {
        return Ok(blocked_run(request, filter, rank, expected, sources, received_timestamp));
    }
    Ok(fixture_run(request, filter, rank, expected, limit))
}

/// Parses a screener request, or runs a parsed one against the synthetic
/// fixture rows (`fixture`) or reports the provider sources that block it
/// (see `screen_model`, on the lowercased text).
pub fn screen(
    request: &ScreenerRequest,
    sources: &[DataSourceEntry],
    received_timestamp: &str,
    fixture: bool,
) -> (r: Result<ScreenerResult, TradeXError>)
    requires
        !cut_inside_char(*request, lowercase(request.natural_language@)),
    ensures
        match screen_model(
            *request,
            lowercase(request.natural_language@),
            sources@,
            received_timestamp@,
            fixture,
        ) {
            Ok(m) => r matches Ok(res) && result_view(res) == m,
            Err(code) => r matches Err(e) && is_catalog_error(e, code),
        },
{
    let lowered = lowercase_text(request.natural_language.as_str());
    screen_lowered(request, lowered.as_str(), sources, received_timestamp, fixture)
}

/// `screen`, or `None` for a valid request whose text would be cut inside a
/// multi-byte character.
pub fn screen_checked(
    request: &ScreenerRequest,
    sources: &[DataSourceEntry],
    received_timestamp: &str,
    fixture: bool,
) -> (r: Option<Result<ScreenerResult, TradeXError>>)
    ensures
        r is None <==> cut_inside_char(*request, lowercase(request.natural_language@)),
        r matches Some(x) ==> match screen_model(
            *request,
            lowercase(request.natural_language@),
            sources@,
            received_timestamp@,
            fixture,
        ) {
            Ok(m) => x matches Ok(res) && result_view(res) == m,
            Err(code) => x matches Err(e) && is_catalog_error(e, code),
        },
{
    let lowered = lowercase_text(request.natural_language.as_str());
    if request_valid(request) {
        let t = chars(lowered.as_str());
        match parse(request, &t, received_timestamp) {
            Err(ParseStop::SplitChar) => {
                return None;
            },
            _ => {},
        }
    }
    Some(screen(request, sources, received_timestamp, fixture))
}

// ----------------------------------------------------------------------------
// Laws
// ----------------------------------------------------------------------------

/// Parsing a text yields at most one predicate per field: at most four.
pub proof fn lemma_parsed_predicates_bounded(t: Seq<char>)
    ensures
        predicates_of(t) matches Ok((ps, _)) ==> ps.len() <= 4,
{
}

/// The revision of a parse binds the text, focus, filter, ranking and
/// limit: two requests that differ only in workspace, operation or the
/// revision they carry parse to the same revision.
pub proof fn lemma_revision_ignores_envelope(a: ScreenerRequest, b: ScreenerRequest, t: Seq<char>, received: Seq<char>)
    requires
        a.natural_language == b.natural_language,
        a.focus == b.focus,
        a.filter_spec == b.filter_spec,
        a.rank_spec == b.rank_spec,
        a.limit == b.limit,
    ensures
        match (parse_model(a, t, received), parse_model(b, t, received)) {
            (Ok(x), Ok(y)) => x.revision == y.revision && x.filter == y.filter && x.rank == y.rank
                && x.state == y.state,
            (Err(x), Err(y)) => x == y,
            _ => false,
        },
{
}

/// A run cannot bypass a failed parse: when the text cannot be screened,
/// every operation answers with the failed parse, without candidates.
pub proof fn lemma_failed_parse_never_runs(
    req: ScreenerRequest,
    t: Seq<char>,
    sources: Seq<DataSourceEntry>,
    received: Seq<char>,
    fixture: bool,
)
    requires
        request_ok(req),
        parse_model(req, t, received) matches Ok(p) && p.state == ScreenerResultState::Failed,
    ensures
        screen_model(req, t, sources, received, fixture) == Ok::<ResultModel, Seq<char>>(
            parse_model(req, t, received)->Ok_0,
        ),
        screen_model(req, t, sources, received, fixture) matches Ok(m) && m.candidates.len() == 0
            && m.state == ScreenerResultState::Failed,
{
}

/// A run must carry the revision of the current parse: any other revision
/// (or none) is refused as stale.
pub proof fn lemma_stale_revision_rejected(
    req: ScreenerRequest,
    t: Seq<char>,
    sources: Seq<DataSourceEntry>,
    received: Seq<char>,
    fixture: bool,
)
    requires
        request_ok(req),
        req.operation == ScreenerOperation::Run,
        req.filter_spec is Some,
        req.rank_spec is Some,
        parse_model(req, t, received) matches Ok(p) && p.state == ScreenerResultState::Parsed && !(
        req.revision matches Some(v) && Some(v@) == p.revision),
    ensures
        screen_model(req, t, sources, received, fixture) == Err::<ResultModel, Seq<char>>(
            "SCREENER_REVISION_STALE"@,
        ),
{
}

/// Without the fixture no run returns candidates: the answer is the parse,
/// the blocked result, or an error.
pub proof fn lemma_external_runs_have_no_candidates(
    req: ScreenerRequest,
    t: Seq<char>,
    sources: Seq<DataSourceEntry>,
    received: Seq<char>,
)
    ensures
        screen_model(req, t, sources, received, false) matches Ok(m) ==> m.candidates.len() == 0,
{
}

proof fn lemma_insert_ranked_members(s: Seq<RowModel>, x: RowModel, rank: (ScreenerRankField, ScreenerDirection))
    ensures
        insert_ranked(s, x, rank).len() == s.len() + 1,
        forall|i: int| 0 <= i < insert_ranked(s, x, rank).len() ==> (#[trigger] insert_ranked(s, x, rank)[i] == x || s.contains(insert_ranked(s, x, rank)[i])),
    decreases s.len(),
{
    if s.len() > 0 && ranks_after(s.last(), x, rank) {
        lemma_insert_ranked_members(s.drop_last(), x, rank);
        let r = insert_ranked(s.drop_last(), x, rank);
        assert forall|i: int| 0 <= i < r.push(s.last()).len() implies (#[trigger] r.push(s.last())[i] == x || s.contains(r.push(s.last())[i])) by {
            if i < r.len() {
                if r[i] != x {
                    let j = choose|j: int| 0 <= j < s.drop_last().len() && s.drop_last()[j] == r[i];
                    assert(s[j] == r[i]);
                }
            } else {
                assert(s[s.len() - 1] == s.last());
            }
        }
    } else if s.len() > 0 {
        assert forall|i: int| 0 <= i < s.push(x).len() implies (#[trigger] s.push(x)[i] == x || s.contains(s.push(x)[i])) by {
            if i < s.len() {
                assert(s[i] == s.push(x)[i]);
            }
        }
    }
}

proof fn lemma_sort_ranked_members(s: Seq<RowModel>, rank: (ScreenerRankField, ScreenerDirection))
    ensures
        sort_ranked(s, rank).len() == s.len(),
        forall|i: int| 0 <= i < sort_ranked(s, rank).len() ==> s.contains(#[trigger] sort_ranked(s, rank)[i]),
    decreases s.len(),
{
    if s.len() > 0 {
        let d = s.drop_last();
        lemma_sort_ranked_members(d, rank);
        let sd = sort_ranked(d, rank);
        lemma_insert_ranked_members(sd, s.last(), rank);
        assert forall|i: int| 0 <= i < sort_ranked(s, rank).len() implies s.contains(#[trigger] sort_ranked(s, rank)[i]) by {
            let y = sort_ranked(s, rank)[i];
            if y == s.last() {
                assert(s[s.len() - 1] == y);
            } else {
                let k = choose|k: int| 0 <= k < sd.len() && sd[k] == y;
                assert(d.contains(sd[k]));
                let j = choose|j: int| 0 <= j < d.len() && d[j] == y;
                assert(s[j] == y);
            }
        }
    }
}

proof fn lemma_selected_rows_match(
    f: (ScreenerUniverse, Seq<(ScreenerPredicateField, ScreenerOperator, Seq<char>)>),
    k: int,
)
    ensures
        forall|i: int| 0 <= i < selected_rows(f, k).len() ==> row_in_universe(#[trigger] selected_rows(f, k)[i], f.0)
            && row_matches(selected_rows(f, k)[i], f.1),
        selected_rows(f, k).len() <= if k < 0 { 4 } else if k > 4 { 0 } else { 4 - k },
    decreases 4 - k,
{
    if 0 <= k < 4 {
        lemma_selected_rows_match(f, k + 1);
        let rest = selected_rows(f, k + 1);
        if row_in_universe(fixture_row(k), f.0) && row_matches(fixture_row(k), f.1) {
            assert forall|i: int| 0 <= i < selected_rows(f, k).len() implies row_in_universe(#[trigger] selected_rows(f, k)[i], f.0)
                && row_matches(selected_rows(f, k)[i], f.1) by {
                if i > 0 {
                    assert(selected_rows(f, k)[i] == rest[i - 1]);
                }
            }
        }
    }
}

/// Every candidate of a fixture run is a row of the filter's universe that
/// satisfies every predicate; candidates are numbered 1, 2, ... and there
/// are at most `limit` of them.
pub proof fn lemma_fixture_candidates_match(
    f: (ScreenerUniverse, Seq<(ScreenerPredicateField, ScreenerOperator, Seq<char>)>),
    rank: (ScreenerRankField, ScreenerDirection),
    limit: int,
)
    requires
        1 <= limit <= 50,
    ensures
        fixture_candidates(f, rank, limit).len() <= limit,
        forall|i: int| 0 <= i < fixture_candidates(f, rank, limit).len() ==> {
            let c = #[trigger] fixture_candidates(f, rank, limit)[i];
            &&& c.rank == i + 1
            &&& exists|k: int|
                0 <= k < 4 && fixture_row(k).instrument_id == c.instrument_id && row_in_universe(
                    fixture_row(k),
                    f.0,
                ) && row_matches(fixture_row(k), f.1)
        },
{
    let sel = selected_rows(f, 0);
    let rows = sort_ranked(sel, rank);
    lemma_selected_rows_match(f, 0);
    lemma_sort_ranked_members(sel, rank);
    assert forall|i: int| 0 <= i < fixture_candidates(f, rank, limit).len() implies {
        let c = #[trigger] fixture_candidates(f, rank, limit)[i];
        &&& c.rank == i + 1
        &&& exists|k: int|
            0 <= k < 4 && fixture_row(k).instrument_id == c.instrument_id && row_in_universe(
                fixture_row(k),
                f.0,
            ) && row_matches(fixture_row(k), f.1)
    } by {
        let r = rows[i];
        assert(sel.contains(r));
        let j = choose|j: int| 0 <= j < sel.len() && sel[j] == r;
        lemma_selected_row_is_fixture(f, 0, j);
        let k = choose|k: int| 0 <= k < 4 && fixture_row(k) == sel[j];
        assert(fixture_row(k).instrument_id == r.instrument_id);
    }
}

/// No row of `s` ranks after the next one.
pub open spec fn rank_ordered(s: Seq<RowModel>, rank: (ScreenerRankField, ScreenerDirection)) -> bool {
    forall|i: int| 0 <= i < s.len() - 1 ==> !ranks_after(#[trigger] s[i], s[i + 1], rank)
}

proof fn lemma_ranks_after_asymmetric(a: RowModel, b: RowModel, rank: (ScreenerRankField, ScreenerDirection))
    requires
        ranks_after(a, b, rank),
    ensures
        !ranks_after(b, a, rank),
{
    let x = text_value(rank_value(a, rank.0));
    let y = text_value(rank_value(b, rank.0));
    assert(value_order(x, y) == order_of(x.0 * pow10(y.1), y.0 * pow10(x.1)));
    assert(value_order(y, x) == order_of(y.0 * pow10(x.1), x.0 * pow10(y.1)));
}

proof fn lemma_insert_ranked_ordered(s: Seq<RowModel>, x: RowModel, rank: (ScreenerRankField, ScreenerDirection))
    requires
        rank_ordered(s, rank),
    ensures
        rank_ordered(insert_ranked(s, x, rank), rank),
        insert_ranked(s, x, rank).last() == x || (s.len() > 0 && insert_ranked(s, x, rank).last() == s.last()),
    decreases s.len(),
{
    if s.len() == 0 {
    } else if !ranks_after(s.last(), x, rank) {
        let r = s.push(x);
        assert forall|i: int| 0 <= i < r.len() - 1 implies !ranks_after(#[trigger] r[i], r[i + 1], rank) by {
            if i < s.len() - 1 {
                assert(r[i] == s[i] && r[i + 1] == s[i + 1]);
            } else {
                assert(r[i] == s.last());
            }
        }
    } else {
        let d = s.drop_last();
        assert(rank_ordered(d, rank)) by {
            assert forall|i: int| 0 <= i < d.len() - 1 implies !ranks_after(#[trigger] d[i], d[i + 1], rank) by {
                assert(d[i] == s[i] && d[i + 1] == s[i + 1]);
            }
        }
        lemma_insert_ranked_ordered(d, x, rank);
        let q = insert_ranked(d, x, rank);
        let r = q.push(s.last());
        if q.last() == x {
            lemma_ranks_after_asymmetric(s.last(), x, rank);
        } else {
            assert(d.last() == s[s.len() - 2]);
            assert(!ranks_after(s[s.len() - 2], s[s.len() - 1], rank));
        }
        assert forall|i: int| 0 <= i < r.len() - 1 implies !ranks_after(#[trigger] r[i], r[i + 1], rank) by {
            if i < q.len() - 1 {
                assert(r[i] == q[i] && r[i + 1] == q[i + 1]);
            } else {
                assert(r[i] == q.last());
                assert(r[i + 1] == s.last());
            }
        }
    }
}

proof fn lemma_sort_ranked_ordered(s: Seq<RowModel>, rank: (ScreenerRankField, ScreenerDirection))
    ensures
        rank_ordered(sort_ranked(s, rank), rank),
    decreases s.len(),
{
    if s.len() > 0 {
        lemma_sort_ranked_ordered(s.drop_last(), rank);
        lemma_insert_ranked_ordered(sort_ranked(s.drop_last(), rank), s.last(), rank);
    }
}

/// A run against the fixture answers with the request's own revision, the
/// filter and ranking it carries, and its candidates in rank order, each a
/// row of the filter's universe that satisfies every predicate: the
/// candidates are the selected rows sorted by the ranking (stable), none
/// ranking after the next (descending: no value below the next one's;
/// ascending: none above), numbered from one, at most the limit (at most
/// 50), the result `Empty` exactly when there are none.
pub proof fn lemma_fixture_run_ranked(req: ScreenerRequest, t: Seq<char>, sources: Seq<DataSourceEntry>, received: Seq<char>)
    requires
        req.operation == ScreenerOperation::Run,
        parse_model(req, t, received) matches Ok(p) && p.state == ScreenerResultState::Parsed,
        screen_model(req, t, sources, received, true) is Ok,
    ensures
        ({
            let m = screen_model(req, t, sources, received, true)->Ok_0;
            let f = filter_view(req.filter_spec->0);
            let rank = rank_view(req.rank_spec->0);
            let rows = sort_ranked(selected_rows(f, 0), rank);
            &&& req.revision is Some && m.revision == Some(req.revision->0@)
            &&& m.filter == Some(f)
            &&& m.rank == Some(rank)
            &&& m.candidate_count == m.candidates.len()
            &&& m.candidates.len() <= parsed_limit(req, t) <= 50
            &&& (m.state == ScreenerResultState::Empty <==> m.candidates.len() == 0)
            &&& m.state == ScreenerResultState::Empty || m.state == ScreenerResultState::Completed
            &&& rank_ordered(rows, rank)
            &&& forall|i: int| 0 <= i < m.candidates.len() ==> #[trigger] m.candidates[i] == row_candidate(rows[i], i + 1)
            &&& forall|i: int|
                0 <= i < m.candidates.len() ==> exists|k: int|
                    0 <= k < 4 && fixture_row(k).instrument_id == (#[trigger] m.candidates[i]).instrument_id
                        && row_in_universe(fixture_row(k), f.0) && row_matches(fixture_row(k), f.1)
        }),
{
    let f = filter_view(req.filter_spec->0);
    let rank = rank_view(req.rank_spec->0);
    lemma_sort_ranked_ordered(selected_rows(f, 0), rank);
    lemma_fixture_candidates_match(f, rank, parsed_limit(req, t));
}

proof fn lemma_selected_row_is_fixture(
    f: (ScreenerUniverse, Seq<(ScreenerPredicateField, ScreenerOperator, Seq<char>)>),
    k: int,
    j: int,
)
    requires
        0 <= j < selected_rows(f, k).len(),
    ensures
        exists|m: int| 0 <= m < 4 && fixture_row(m) == selected_rows(f, k)[j] && row_in_universe(
            fixture_row(m),
            f.0,
        ) && row_matches(fixture_row(m), f.1),
    decreases 4 - k,
{
    if 0 <= k < 4 {
        if row_in_universe(fixture_row(k), f.0) && row_matches(fixture_row(k), f.1) {
            if j == 0 {
                assert(fixture_row(k) == selected_rows(f, k)[0]);
            } else {
                lemma_selected_row_is_fixture(f, k + 1, j - 1);
                assert(selected_rows(f, k)[j] == selected_rows(f, k + 1)[j - 1]);
            }
        } else {
            lemma_selected_row_is_fixture(f, k + 1, j);
        }
    }
}

} // verus!
