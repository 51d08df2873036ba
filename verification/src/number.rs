//! Numbers as they stand in the text.
//!
//! The library never rounds a number. It checks that a field is written as
//! a decimal number and carries the field's text to the caller, who turns it
//! into whatever numeric type the renderer wants. The grammar is the one
//! from which the standard library reads a floating-point number, so that
//! the caller's `parse` cannot fail on the text of a `Number`. A face corner
//! refers to the attribute pools by unsigned integers, which are read here
//! too, by the grammar from which the standard library reads a `u32`.

use vstd::prelude::*;
use vstd::slice::slice_to_vec;
use vstd::string::is_ascii;
use vstd::string::is_ascii_spec_bytes;
use crate::text::ascii;

verus! {

/// `0` to `9`.
pub open spec fn is_digit(b: u8) -> bool {
    '0' as u8 <= b && b <= '9' as u8
}

/// `+` or `-`.
pub open spec fn is_sign(b: u8) -> bool {
    b == '+' as u8 || b == '-' as u8
}

/// An ASCII capital letter as its small letter, any other byte as itself.
pub open spec fn lower(b: u8) -> u8 {
    if 'A' as u8 <= b && b <= 'Z' as u8 {
        (b + 32) as u8
    } else {
        b
    }
}

/// `s` with its ASCII capital letters made small.
pub open spec fn lowered(s: Seq<u8>) -> Seq<u8> {
    s.map_values(|b: u8| lower(b))
}

/// Every byte of `s` is a digit.
pub open spec fn all_digits(s: Seq<u8>) -> bool {
    forall|i: int| 0 <= i < s.len() ==> is_digit(#[trigger] s[i])
}

/// How many digits stand at the start of `s`.
pub open spec fn digits_len(s: Seq<u8>) -> int
    decreases s.len(),
{
    if s.len() > 0 && is_digit(s[0]) {
        1 + digits_len(s.skip(1))
    } else {
        0
    }
}

/// `s` without one sign at its start.
pub open spec fn unsigned(s: Seq<u8>) -> Seq<u8> {
    if s.len() > 0 && is_sign(s[0]) {
        s.skip(1)
    } else {
        s
    }
}

/// `e` or `E`, an optional sign, one digit or more.
pub open spec fn is_exponent(s: Seq<u8>) -> bool {
    &&& s.len() > 0
    &&& lower(s[0]) == 'e' as u8
    &&& unsigned(s.skip(1)).len() > 0
    &&& all_digits(unsigned(s.skip(1)))
}

/// Digits with at most one point among them, at least one digit in all,
/// and an optional exponent behind: `12`, `12.`, `.5`, `1.5e-3`.
pub open spec fn is_decimal(s: Seq<u8>) -> bool {
    let whole = digits_len(s);
    let after_whole = s.skip(whole);
    let after_point = if after_whole.len() > 0 && after_whole[0] == '.' as u8 {
        after_whole.skip(1)
    } else {
        after_whole
    };
    let fraction = digits_len(after_point);
    let tail = after_point.skip(fraction);
    whole + fraction > 0 && (tail.len() == 0 || is_exponent(tail))
}

/// `inf`, `infinity` or `nan`, in capital or small letters.
pub open spec fn is_special(s: Seq<u8>) -> bool {
    ||| lowered(s) == ascii("inf"@)
    ||| lowered(s) == ascii("infinity"@)
    ||| lowered(s) == ascii("nan"@)
}

/// The text of a number: an optional sign, then a decimal or one of the
/// special words. No white space and nothing else before or behind.
pub open spec fn is_number(s: Seq<u8>) -> bool {
    is_decimal(unsigned(s)) || is_special(unsigned(s))
}

/// What the digit `b` counts, from 0 to 9.
pub open spec fn digit_value(b: u8) -> nat {
    if is_digit(b) {
        (b - '0' as u8) as nat
    } else {
        0
    }
}

/// The number that the digits `s` write in base ten.
pub open spec fn decimal_value(s: Seq<u8>) -> nat
    decreases s.len(),
{
    if s.len() == 0 {
        0
    } else {
        decimal_value(s.drop_last()) * 10 + digit_value(s.last())
    }
}

/// `s` without one `+` at its start.
pub open spec fn without_plus(s: Seq<u8>) -> Seq<u8> {
    if s.len() > 0 && s[0] == '+' as u8 {
        s.skip(1)
    } else {
        s
    }
}

/// The text of an index: an optional `+`, then one digit or more, writing
/// a number that fits 32 bits.
pub open spec fn is_index(s: Seq<u8>) -> bool {
    &&& without_plus(s).len() > 0
    &&& all_digits(without_plus(s))
    &&& decimal_value(without_plus(s)) <= u32::MAX
}

/// The number that the index text `s` writes.
pub open spec fn index_value(s: Seq<u8>) -> nat {
    decimal_value(without_plus(s))
}

/// `digits_len` counts a prefix of digits that ends at the first byte which
/// is none.
pub proof fn lemma_digits_len(s: Seq<u8>)
    ensures
        0 <= digits_len(s) <= s.len(),
        all_digits(s.take(digits_len(s))),
        digits_len(s) < s.len() ==> !is_digit(s[digits_len(s)]),
        all_digits(s) <==> digits_len(s) == s.len(),
    decreases s.len(),
{
    if s.len() > 0 && is_digit(s[0]) {
        let t = s.skip(1);
        lemma_digits_len(t);
        let n = digits_len(s);
        assert forall|i: int| 0 <= i < n implies is_digit(#[trigger] s.take(n)[i]) by {
            if i > 0 {
                assert(s.take(n)[i] == t.take(n - 1)[i - 1]);
            }
        }
        if all_digits(s) {
            assert forall|i: int| 0 <= i < t.len() implies is_digit(#[trigger] t[i]) by {
                assert(t[i] == s[i + 1]);
            }
        }
        if n == s.len() {
            assert forall|i: int| 0 <= i < s.len() implies is_digit(#[trigger] s[i]) by {
                if i > 0 {
                    assert(s[i] == t[i - 1]);
                }
            }
        }
    } else {
        if s.len() > 0 {
            assert(!is_digit(s[0]));
        }
    }
}

/// A count of digits that ends at a byte which is none is `digits_len`.
pub proof fn lemma_digits_len_is(s: Seq<u8>, n: int)
    requires
        0 <= n <= s.len(),
        forall|i: int| 0 <= i < n ==> is_digit(#[trigger] s[i]),
        n < s.len() ==> !is_digit(s[n]),
    ensures
        digits_len(s) == n,
    decreases s.len(),
{
    if n > 0 {
        assert(is_digit(s[0]));
        let t = s.skip(1);
        assert forall|i: int| 0 <= i < n - 1 implies is_digit(#[trigger] t[i]) by {
            assert(t[i] == s[i + 1]);
        }
        lemma_digits_len_is(t, n - 1);
    }
}

/// The text made of the digits `whole`, a point if `point` says so, the
/// digits `fraction` and the text `exponent`.
pub open spec fn written(whole: Seq<u8>, point: bool, fraction: Seq<u8>, exponent: Seq<u8>) -> Seq<
    u8,
> {
    whole + (if point {
        seq!['.' as u8]
    } else {
        Seq::empty()
    }) + fraction + exponent
}

/// The parts of a decimal: digits before and behind the point, one digit
/// at least in all, none behind a point that is not there, and behind them
/// nothing or an exponent.
pub open spec fn decimal_parts(
    whole: Seq<u8>,
    point: bool,
    fraction: Seq<u8>,
    exponent: Seq<u8>,
) -> bool {
    &&& all_digits(whole)
    &&& all_digits(fraction)
    &&& whole.len() + fraction.len() > 0
    &&& (!point ==> fraction.len() == 0)
    &&& (exponent.len() == 0 || is_exponent(exponent))
}

/// Whatever is written from the parts of a decimal is a decimal.
pub proof fn lemma_decimal_written(
    whole: Seq<u8>,
    point: bool,
    fraction: Seq<u8>,
    exponent: Seq<u8>,
)
    requires
        decimal_parts(whole, point, fraction, exponent),
    ensures
        is_decimal(written(whole, point, fraction, exponent)),
{
    let s = written(whole, point, fraction, exponent);
    let a = whole.len() as int;
    assert forall|i: int| 0 <= i < a implies is_digit(#[trigger] s[i]) by {
        assert(s[i] == whole[i]);
    }
    if a < s.len() {
        if point {
            assert(s[a] == '.' as u8);
        } else {
            assert(s[a] == exponent[0]);
        }
    }
    lemma_digits_len_is(s, a);
    let after_whole = s.skip(a);
    let after_point = if after_whole.len() > 0 && after_whole[0] == '.' as u8 {
        after_whole.skip(1)
    } else {
        after_whole
    };
    if point {
        assert(after_whole[0] == '.' as u8);
    } else if after_whole.len() > 0 {
        assert(after_whole[0] == exponent[0]);
    }
    assert(after_point =~= fraction + exponent);
    let b = fraction.len() as int;
    assert forall|i: int| 0 <= i < b implies is_digit(#[trigger] after_point[i]) by {
        assert(after_point[i] == fraction[i]);
    }
    if b < after_point.len() {
        assert(after_point[b] == exponent[0]);
    }
    lemma_digits_len_is(after_point, b);
    assert(after_point.skip(b) =~= exponent);
}

/// Every decimal is written from the parts of a decimal.
pub proof fn lemma_decimal_parts(s: Seq<u8>)
    requires
        is_decimal(s),
    ensures
        exists|whole: Seq<u8>, point: bool, fraction: Seq<u8>, exponent: Seq<u8>|
            decimal_parts(whole, point, fraction, exponent) && s == #[trigger] written(
                whole,
                point,
                fraction,
                exponent,
            ),
{
    lemma_digits_len(s);
    let a = digits_len(s);
    let after_whole = s.skip(a);
    let point = after_whole.len() > 0 && after_whole[0] == '.' as u8;
    let after_point = if point {
        after_whole.skip(1)
    } else {
        after_whole
    };
    lemma_digits_len(after_point);
    let b = digits_len(after_point);
    let whole = s.take(a);
    let fraction = after_point.take(b);
    let exponent = after_point.skip(b);
    if !point && b > 0 {
        assert(after_point[0] == s[a]);
        assert(is_digit(after_point.take(b)[0]));
    }
    assert(s =~= written(whole, point, fraction, exponent));
    assert(decimal_parts(whole, point, fraction, exponent));
}

/// Tells whether `b` is a digit.
pub fn digit(b: u8) -> (r: bool)
    ensures
        r == is_digit(b),
{
    48 <= b && b <= 57
}

/// Tells whether `b` is a sign.
pub fn sign(b: u8) -> (r: bool)
    ensures
        r == is_sign(b),
{
    b == 43 || b == 45
}

/// Makes an ASCII capital letter small.
pub fn to_lower(b: u8) -> (r: u8)
    ensures
        r == lower(b),
{
    if 65 <= b && b <= 90 {
        b + 32
    } else {
        b
    }
}

/// Counts the digits that stand at `from`.
pub fn count_digits(s: &[u8], from: usize) -> (n: usize)
    requires
        from <= s@.len(),
    ensures
        n == digits_len(s@.skip(from as int)),
        from + n <= s@.len(),
{
    let mut at: usize = from;
    while at < s.len() && digit(s[at])
        invariant
            from <= at <= s@.len(),
            forall|j: int| from <= j < at ==> is_digit(s@[j]),
        decreases s@.len() - at,
    {
        at = at + 1;
    }
    proof {
        lemma_digits_len_is(s@.skip(from as int), at - from);
    }
    at - from
}

/// Tells whether `token`, with capital letters made small, spells the
/// ASCII word `word`.
pub fn is_word_in_any_case(token: &[u8], word: &str) -> (r: bool)
    requires
        is_ascii(word),
    ensures
        r == (lowered(token@) == ascii(word@)),
{
    proof {
        is_ascii_spec_bytes(word);
    }
    let w = word.as_bytes();
    assert(w@ == ascii(word@));
    if token.len() != w.len() {
        return false;
    }
    let mut i: usize = 0;
    while i < token.len()
        invariant
            token@.len() == w@.len(),
            w@ == ascii(word@),
            i <= token@.len(),
            forall|j: int| 0 <= j < i ==> lower(token@[j]) == w@[j],
        decreases token@.len() - i,
    {
        if to_lower(token[i]) != w[i] {
            assert(lowered(token@)[i as int] != w@[i as int]);
            return false;
        }
        i = i + 1;
    }
    assert(lowered(token@) =~= w@);
    true
}

/// Tells whether the bytes from `from` on are an exponent.
fn exponent_at(s: &[u8], from: usize) -> (r: bool)
    requires
        from <= s@.len(),
    ensures
        r == is_exponent(s@.skip(from as int)),
{
    let ghost tail = s@.skip(from as int);
    if from == s.len() || to_lower(s[from]) != 101 {
        return false;
    }
    let mut at: usize = from + 1;
    assert(tail.skip(1) == s@.skip(at as int));
    if at < s.len() && sign(s[at]) {
        assert(s@.skip(at as int).skip(1) == s@.skip(at + 1));
        at = at + 1;
    }
    assert(unsigned(tail.skip(1)) == s@.skip(at as int));
    let n = count_digits(s, at);
    proof {
        lemma_digits_len(s@.skip(at as int));
    }
    at < s.len() && at + n == s.len()
}

/// Tells whether the bytes from `from` on are a decimal.
fn decimal_at(s: &[u8], from: usize) -> (r: bool)
    requires
        from <= s@.len(),
    ensures
        r == is_decimal(s@.skip(from as int)),
{
    let ghost body = s@.skip(from as int);
    let len = s.len();
    let whole = count_digits(s, from);
    let mut at: usize = from + whole;
    assert(body.skip(whole as int) == s@.skip(at as int));
    if at < s.len() && s[at] == 46 {
        assert(s@.skip(at as int).skip(1) == s@.skip(at + 1));
        at = at + 1;
    }
    let fraction = count_digits(s, at);
    assert(s@.skip(at as int).skip(fraction as int) == s@.skip(at + fraction));
    if whole == 0 && fraction == 0 {
        return false;
    }
    at + fraction == len || exponent_at(s, at + fraction)
}

/// Tells whether `token` is the text of a number.
pub fn valid_number(token: &[u8]) -> (r: bool)
    ensures
        r == is_number(token@),
{
    let from: usize = if token.len() > 0 && sign(token[0]) {
        1
    } else {
        0
    };
    let body = vstd::slice::slice_subrange(token, from, token.len());
    assert(body@ == unsigned(token@));
    assert(body@.skip(0) == body@);
    proof {
        reveal_strlit("inf");
        reveal_strlit("infinity");
        reveal_strlit("nan");
    }
    decimal_at(body, 0) || is_word_in_any_case(body, "inf") || is_word_in_any_case(
        body,
        "infinity",
    ) || is_word_in_any_case(body, "nan")
}

/// The first digits of a text write no larger a number than all of them.
pub proof fn lemma_decimal_value_prefix(s: Seq<u8>, n: int)
    requires
        0 <= n <= s.len(),
    ensures
        decimal_value(s.take(n)) <= decimal_value(s),
    decreases s.len() - n,
{
    if n == s.len() {
        assert(s.take(n) == s);
    } else {
        lemma_decimal_value_prefix(s, n + 1);
        assert(s.take(n + 1).drop_last() == s.take(n));
    }
}

/// Reads the text of an index. `None` where `token` is no such text.
pub fn parse_index(token: &[u8]) -> (r: Option<u32>)
    ensures
        r is Some <==> is_index(token@),
        r is Some ==> r->0 == index_value(token@),
{
    let from: usize = if token.len() > 0 && token[0] == 43 {
        1
    } else {
        0
    };
    let d = vstd::slice::slice_subrange(token, from, token.len());
    assert(d@ == without_plus(token@));
    if d.len() == 0 {
        return None;
    }
    let mut value: u64 = 0;
    let mut i: usize = 0;
    assert(d@.take(0) == Seq::<u8>::empty());
    while i < d.len()
        invariant
            d@ == without_plus(token@),
            d@.len() > 0,
            i <= d@.len(),
            all_digits(d@.take(i as int)),
            value == decimal_value(d@.take(i as int)),
            value <= u32::MAX,
        decreases d@.len() - i,
    {
        let b = d[i];
        let ghost next = d@.take(i + 1);
        assert(next.drop_last() == d@.take(i as int));
        assert(next.last() == b);
        if !digit(b) {
            assert(!is_digit(d@[i as int]));
            return None;
        }
        let wider: u64 = value * 10 + (b - 48) as u64;
        assert(wider == decimal_value(next));
        if wider > 0xffff_ffff {
            proof {
                lemma_decimal_value_prefix(d@, i + 1);
            }
            return None;
        }
        assert forall|j: int| 0 <= j < next.len() implies is_digit(#[trigger] next[j]) by {
            if j < i {
                assert(next[j] == d@.take(i as int)[j]);
            }
        }
        value = wider;
        i = i + 1;
    }
    assert(d@.take(i as int) == d@);
    Some(value as u32)
}

/// A number as the text wrote it.
pub struct Number {
    text: Vec<u8>,
}

impl View for Number {
    type V = Seq<u8>;

    closed spec fn view(&self) -> Seq<u8> {
        self.text@
    }
}

impl Number {
    #[verifier::type_invariant]
    spec fn well_formed(&self) -> bool {
        is_number(self.text@)
    }

    /// Reads the text of a number. `None` where `token` is no such text.
    pub fn parse(token: &[u8]) -> (r: Option<Number>)
        ensures
            r is Some <==> is_number(token@),
            r is Some ==> r->0@ == token@,
    {
        if valid_number(token) {
            Some(Number { text: slice_to_vec(token) })
        } else {
            None
        }
    }

    /// The number that the ASCII literal `word` writes.
    pub(crate) fn literal(word: &str) -> (r: Number)
        requires
            is_ascii(word),
            is_number(ascii(word@)),
        ensures
            r@ == ascii(word@),
    {
        proof {
            is_ascii_spec_bytes(word);
        }
        Number { text: slice_to_vec(word.as_bytes()) }
    }

    /// The text of the number, which is always that of a number.
    pub fn text(&self) -> (r: &[u8])
        ensures
            r@ == self@,
            is_number(r@),
    {
        proof {
            use_type_invariant(self);
        }
        self.text.as_slice()
    }
}

impl Clone for Number {
    fn clone(&self) -> (r: Self)
        ensures
            r@ == self@,
    {
        proof {
            use_type_invariant(self);
        }
        Number { text: slice_to_vec(self.text.as_slice()) }
    }
}

} // verus!
