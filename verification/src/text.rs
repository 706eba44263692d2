//! The decimal text of numbers.

use crate::number::{
    clamped_magnitude, is_infinite, is_nan, is_negative, number_of_whole, Number, INFINITY_BITS,
    MAGNITUDE_MASK, SIGN_MASK,
};
use rustc_apfloat::ieee::Double;
use rustc_apfloat::Float;
use vstd::arithmetic::power2::{lemma2_to64_rest, pow2};
use vstd::prelude::*;
use vstd::string::StrSliceExecFns;

verus! {

/// The decimal text of a finite pattern in scientific notation, cut off after
/// `precision` significant digits.
pub uninterp spec fn scientific_text(a: u64, precision: nat) -> Seq<char>;

/// The pattern of the binary64 number nearest to what a decimal text says, if
/// the text says a number.
pub uninterp spec fn parsed_text(text: Seq<char>) -> Option<u64>;

/// Formats the pattern through the `Display` of `rustc_apfloat`'s `Double`,
/// which takes the precision as the number of significant digits and the
/// width 0 as the demand for scientific notation. The text is taken to be a
/// function of the pattern and the precision alone, named `scientific_text`.
#[verifier::external_body]
fn soft_scientific_text(a: u64, precision: usize) -> (r: String)
    requires
        1 <= precision <= 1000,
    ensures
        r@ == scientific_text(a, precision as nat),
{
    format!("{:1$.2$}", Double::from_bits(a.into()), 0, precision)
}

/// Parses the text through the `FromStr` of `rustc_apfloat`'s `Double`, which
/// rounds to nearest, ties to even. The pattern is taken to be a function of
/// the text alone, named `parsed_text`.
#[verifier::external_body]
fn soft_parsed_text(text: &str) -> (r: Option<u64>)
    ensures
        r == parsed_text(text@),
{
    match text.parse::<Double>() {
        Ok(number) => Some(number.to_bits() as u64),
        Err(_) => None,
    }
}

/// `String::push` of std appends the character to the string.
pub assume_specification[ std::string::String::push ](text: &mut std::string::String, c: char)
    ensures
        final(text)@ == old(text)@.push(c),
;

/// The character of a decimal digit.
pub open spec fn digit_char(d: nat) -> char {
    if d == 0 {
        '0'
    } else if d == 1 {
        '1'
    } else if d == 2 {
        '2'
    } else if d == 3 {
        '3'
    } else if d == 4 {
        '4'
    } else if d == 5 {
        '5'
    } else if d == 6 {
        '6'
    } else if d == 7 {
        '7'
    } else if d == 8 {
        '8'
    } else {
        '9'
    }
}

/// The decimal digit that a character is, if it is one.
pub open spec fn digit_value(c: char) -> Option<nat> {
    if c == '0' {
        Some(0)
    } else if c == '1' {
        Some(1)
    } else if c == '2' {
        Some(2)
    } else if c == '3' {
        Some(3)
    } else if c == '4' {
        Some(4)
    } else if c == '5' {
        Some(5)
    } else if c == '6' {
        Some(6)
    } else if c == '7' {
        Some(7)
    } else if c == '8' {
        Some(8)
    } else if c == '9' {
        Some(9)
    } else {
        None
    }
}

/// The decimal digits of a whole number, without leading zeros.
pub open spec fn decimal_digits(n: nat) -> Seq<char>
    decreases n,
{
    if n < 10 {
        seq![digit_char(n)]
    } else {
        decimal_digits(n / 10).push(digit_char(n % 10))
    }
}

/// A decimal number in scientific form: a sign, the significant digits, of
/// which the first stands before the point, and the power of ten.
#[derive(Clone, Debug)]
pub struct Decimal {
    pub negative: bool,
    pub digits: Vec<char>,
    pub exponent: i64,
}

/// What a [`Decimal`] stands for.
pub ghost struct DecimalView {
    pub negative: bool,
    pub digits: Seq<char>,
    pub exponent: int,
}

impl View for Decimal {
    type V = DecimalView;

    open spec fn view(&self) -> DecimalView {
        DecimalView { negative: self.negative, digits: self.digits@, exponent: self.exponent as int }
    }
}

/// The place of the first `E` at or after `from`, or the length of the text
/// where there is none.
pub open spec fn exponent_mark(text: Seq<char>, from: nat) -> nat
    decreases text.len() - from,
{
    if from >= text.len() {
        text.len()
    } else if text[from as int] == 'E' {
        from
    } else {
        exponent_mark(text, from + 1)
    }
}

/// The decimal digits among the first `n` characters of a text.
pub open spec fn digits_before(text: Seq<char>, n: nat) -> Seq<char>
    decreases n,
{
    if n == 0 || n > text.len() {
        Seq::empty()
    } else if digit_value(text[n - 1]) is Some {
        digits_before(text, (n - 1) as nat).push(text[n - 1])
    } else {
        digits_before(text, (n - 1) as nat)
    }
}

/// The whole number that the characters from `from` up to `n` say, if they are
/// all decimal digits.
pub open spec fn whole_value(text: Seq<char>, from: nat, n: nat) -> Option<nat>
    decreases n,
{
    if n <= from || n > text.len() {
        Some(0)
    } else {
        match (whole_value(text, from, (n - 1) as nat), digit_value(text[n - 1])) {
            (Some(before), Some(d)) => Some(before * 10 + d),
            _ => None,
        }
    }
}

/// The decimal that a text in scientific notation says: digits with a point
/// among them, after a `-` if the number is negative, then `E`, a sign, and an
/// exponent of one to four digits.
pub open spec fn scanned(text: Seq<char>) -> Option<DecimalView> {
    let mark = exponent_mark(text, 0);
    let digits = digits_before(text, mark);
    if mark + 2 >= text.len() || text.len() > mark + 6 || digits.len() == 0 {
        None
    } else if text[mark as int + 1] != '+' && text[mark as int + 1] != '-' {
        None
    } else {
        match whole_value(text, mark + 2, text.len()) {
            None => None,
            Some(exponent) => Some(
                DecimalView {
                    negative: text[0] == '-',
                    digits,
                    exponent: if text[mark as int + 1] == '-' {
                        -(exponent as int)
                    } else {
                        exponent as int
                    },
                },
            ),
        }
    }
}

/// A run of zeros.
pub open spec fn zeros(n: nat) -> Seq<char> {
    Seq::new(n, |i: int| '0')
}

/// Digits without the zeros at their end, but for the first digit.
pub open spec fn trimmed(digits: Seq<char>) -> Seq<char>
    decreases digits.len(),
{
    if digits.len() > 1 && digits.last() == '0' {
        trimmed(digits.drop_last())
    } else {
        digits
    }
}

/// Digits with one added at the last place, and whether a one is carried out
/// of the first place.
pub open spec fn incremented(digits: Seq<char>) -> (Seq<char>, bool)
    decreases digits.len(),
{
    if digits.len() == 0 {
        (digits, true)
    } else {
        match digit_value(digits.last()) {
            Some(d) => if d == 9 {
                let (front, carry) = incremented(digits.drop_last());
                (front.push('0'), carry)
            } else {
                (digits.drop_last().push(digit_char(d + 1)), false)
            },
            None => (digits, false),
        }
    }
}

/// Whether a decimal goes up when it is cut off after `p` digits: the digit
/// after them is 5 or more.
pub open spec fn rounds_up(digits: Seq<char>, p: nat) -> bool {
    p < digits.len() && digit_value(digits[p as int]) is Some && digit_value(digits[p as int])->0
        >= 5
}

/// A decimal cut off after `p` significant digits, and then, if `up`, with
/// one added at the last of them. A decimal of no more than `p` digits stays
/// as it is.
pub open spec fn rounded_to(d: DecimalView, p: nat, up: bool) -> DecimalView {
    if d.digits.len() <= p {
        DecimalView { digits: trimmed(d.digits), ..d }
    } else if !up {
        DecimalView { digits: trimmed(d.digits.take(p as int)), ..d }
    } else if incremented(d.digits.take(p as int)).1 {
        DecimalView { digits: seq!['1'], exponent: d.exponent + 1, ..d }
    } else {
        DecimalView { digits: trimmed(incremented(d.digits.take(p as int)).0), ..d }
    }
}

/// A decimal rounded to `p` significant digits, a half going up.
pub open spec fn rounded(d: DecimalView, p: nat) -> DecimalView {
    rounded_to(d, p, rounds_up(d.digits, p))
}

/// The decimal of `p` significant digits on the other side of a decimal than
/// the one that it rounds to.
pub open spec fn other_neighbour(d: DecimalView, p: nat) -> DecimalView {
    rounded_to(d, p, !rounds_up(d.digits, p))
}

/// The digits before the point of a decimal whose exponent is not negative.
pub open spec fn whole_part(d: DecimalView) -> Seq<char> {
    Seq::new(
        (d.exponent + 1) as nat,
        |i: int|
            if i < d.digits.len() {
                d.digits[i]
            } else {
                '0'
            },
    )
}

/// A decimal written out place by place, without an exponent.
pub open spec fn positional(d: DecimalView) -> Seq<char> {
    let sign = if d.negative {
        seq!['-']
    } else {
        Seq::empty()
    };
    if d.exponent < 0 {
        sign + seq!['0', '.'] + zeros((-d.exponent - 1) as nat) + d.digits
    } else if d.digits.len() > d.exponent + 1 {
        sign + whole_part(d) + seq!['.'] + d.digits.skip(d.exponent + 1)
    } else {
        sign + whole_part(d)
    }
}

/// The decimal of the fewest significant digits, from `p` up to 17, that says
/// the pattern again. Of the two decimals of a length that lie next to the
/// given one, the nearer is tried first; with 17 digits, the nearer is taken.
pub open spec fn shortest_from(a: u64, d: DecimalView, p: nat) -> DecimalView
    decreases 17 - p,
{
    if p >= 17 || parsed_text(positional(rounded(d, p))) == Some(a) {
        rounded(d, p)
    } else if parsed_text(positional(other_neighbour(d, p))) == Some(a) {
        other_neighbour(d, p)
    } else {
        shortest_from(a, d, p + 1)
    }
}

/// The shortest decimal that says a pattern again, given the text of the
/// pattern in scientific notation: the decimal of that text, rounded to as few
/// digits as still say the pattern, and written out place by place. A text
/// that is not in scientific notation stays as it is.
pub open spec fn shortest_decimal(a: u64, exact: Seq<char>) -> Seq<char> {
    match scanned(exact) {
        None => exact,
        Some(d) => positional(shortest_from(a, d, 1)),
    }
}

/// Whether the pattern is a whole number below `2^53`, where binary64 holds
/// every whole number.
pub open spec fn is_small_whole(bits: u64) -> bool {
    &&& !is_nan(bits)
    &&& clamped_magnitude(bits) < pow2(53)
    &&& number_of_whole(clamped_magnitude(bits) as nat) == (bits & MAGNITUDE_MASK)
}

/// The decimal text of a pattern: `NaN`, `inf` and `-inf`; for a whole number
/// below `2^53` its digits, after a `-` where the sign bit is set; and for
/// every other number the shortest decimal that says the number again.
pub open spec fn number_text(bits: u64) -> Seq<char> {
    if is_nan(bits) {
        "NaN"@
    } else if is_infinite(bits) {
        if is_negative(bits) {
            "-inf"@
        } else {
            "inf"@
        }
    } else if is_small_whole(bits) {
        if is_negative(bits) {
            "-"@ + decimal_digits(clamped_magnitude(bits) as nat)
        } else {
            decimal_digits(clamped_magnitude(bits) as nat)
        }
    } else {
        shortest_decimal(bits, scientific_text(bits, 1000))
    }
}

/// The character of a decimal digit.
pub fn digit(d: u64) -> (r: char)
    requires
        d < 10,
    ensures
        r == digit_char(d as nat),
{
    if d == 0 {
        '0'
    } else if d == 1 {
        '1'
    } else if d == 2 {
        '2'
    } else if d == 3 {
        '3'
    } else if d == 4 {
        '4'
    } else if d == 5 {
        '5'
    } else if d == 6 {
        '6'
    } else if d == 7 {
        '7'
    } else if d == 8 {
        '8'
    } else {
        '9'
    }
}

/// The decimal digit that a character is, if it is one.
pub fn digit_of(c: char) -> (r: Option<usize>)
    ensures
        match r {
            Some(d) => digit_value(c) == Some(d as nat) && d < 10,
            None => digit_value(c) is None,
        },
{
    if c == '0' {
        Some(0)
    } else if c == '1' {
        Some(1)
    } else if c == '2' {
        Some(2)
    } else if c == '3' {
        Some(3)
    } else if c == '4' {
        Some(4)
    } else if c == '5' {
        Some(5)
    } else if c == '6' {
        Some(6)
    } else if c == '7' {
        Some(7)
    } else if c == '8' {
        Some(8)
    } else if c == '9' {
        Some(9)
    } else {
        None
    }
}

/// Appends the decimal digits of a whole number to a text.
pub fn push_decimal(text: &mut String, n: u64)
    ensures
        final(text)@ == old(text)@ + decimal_digits(n as nat),
    decreases n,
{
    if n < 10 {
        text.push(digit(n));
        assert(text@ =~= old(text)@ + decimal_digits(n as nat));
    } else {
        push_decimal(text, n / 10);
        text.push(digit(n % 10));
        assert(text@ =~= old(text)@ + decimal_digits(n as nat));
    }
}

/// Once a character is no digit, the characters up to any later place say no number.
pub proof fn lemma_whole_value_fails(text: Seq<char>, from: nat, k: nat, n: nat)
    requires
        from < k <= n <= text.len(),
        whole_value(text, from, k) is None,
    ensures
        whole_value(text, from, n) is None,
    decreases n,
{
    if k < n {
        lemma_whole_value_fails(text, from, k, (n - 1) as nat);
    }
}

/// Reads a text in scientific notation.
pub fn scan(text: &str) -> (r: Option<Decimal>)
    ensures
        match r {
            Some(d) => scanned(text@) == Some(d@) && -10000 < d.exponent < 10000,
            None => scanned(text@) is None,
        },
{
    let n = text.unicode_len();
    let mut mark: usize = 0;
    let mut digits: Vec<char> = Vec::new();
    while mark < n && text.get_char(mark) != 'E'
        invariant
            n == text@.len(),
            mark <= n,
            exponent_mark(text@, 0) == exponent_mark(text@, mark as nat),
            digits@ == digits_before(text@, mark as nat),
        decreases n - mark,
    {
        let c = text.get_char(mark);
        if digit_of(c).is_some() {
            digits.push(c);
        }
        mark = mark + 1;
    }
    if n - mark <= 2 || n - mark > 6 || digits.len() == 0 {
        return None;
    }
    let sign = text.get_char(mark + 1);
    if sign != '+' && sign != '-' {
        return None;
    }
    let mut exponent: i64 = 0;
    let mut i: usize = mark + 2;
    while i < n
        invariant
            n == text@.len(),
            mark + 2 <= i <= n <= mark + 6,
            exponent_mark(text@, 0) == mark,
            whole_value(text@, (mark + 2) as nat, i as nat) == Some(exponent as nat),
            0 <= exponent < 10000,
            i < mark + 6 ==> exponent < 1000,
            i < mark + 5 ==> exponent < 100,
            i < mark + 4 ==> exponent < 10,
            i < mark + 3 ==> exponent < 1,
        decreases n - i,
    {
        match digit_of(text.get_char(i)) {
            None => {
                proof {
                    lemma_whole_value_fails(text@, (mark + 2) as nat, (i + 1) as nat, n as nat);
                }
                return None;
            },
            Some(d) => {
                exponent = exponent * 10 + d as i64;
            },
        }
        i = i + 1;
    }
    let negative = text.get_char(0) == '-';
    if sign == '-' {
        exponent = -exponent;
    }
    Some(Decimal { negative, digits, exponent })
}

/// Takes the zeros off the end of some digits, but for the first digit.
pub fn trim(digits: &mut Vec<char>)
    ensures
        final(digits)@ == trimmed(old(digits)@),
{
    while digits.len() > 1 && digits[digits.len() - 1] == '0'
        invariant
            trimmed(digits@) == trimmed(old(digits)@),
        decreases digits.len(),
    {
        digits.pop();
    }
}

/// Where the digits from `from` on are nines, adding one turns them to zeros
/// and adds one to the digits before them.
pub proof fn lemma_incremented_nines(digits: Seq<char>, from: int)
    requires
        0 <= from <= digits.len(),
        forall|i: int| from <= i < digits.len() ==> digits[i] == '9',
    ensures
        incremented(digits) == (
            incremented(digits.take(from)).0 + zeros((digits.len() - from) as nat),
            incremented(digits.take(from)).1,
        ),
    decreases digits.len() - from,
{
    if from == digits.len() {
        assert(digits.take(from) =~= digits);
        assert(incremented(digits).0 + zeros(0) =~= incremented(digits).0);
    } else {
        let front = digits.drop_last();
        lemma_incremented_nines(front, from);
        assert(front.take(from) =~= digits.take(from));
        assert(digits.last() == '9');
        assert((incremented(front.take(from)).0 + zeros((front.len() - from) as nat)).push('0')
            =~= incremented(digits.take(from)).0 + zeros((digits.len() - from) as nat));
    }
}

/// Adds one at the last place of some digits. Returns whether a one is carried
/// out of the first place.
pub fn increment(digits: &mut Vec<char>) -> (carry: bool)
    ensures
        (final(digits)@, carry) == incremented(old(digits)@),
{
    let mut i: usize = digits.len();
    while i > 0
        invariant
            i <= digits.len(),
            digits.len() == old(digits).len(),
            forall|k: int| 0 <= k < i ==> digits[k] == old(digits)[k],
            forall|k: int| i <= k < digits.len() ==> old(digits)[k] == '9' && digits[k] == '0',
        decreases i,
    {
        let c = digits[i - 1];
        proof {
            lemma_incremented_nines(old(digits)@, i as int);
            assert(old(digits)@.take(i as int).last() == c);
            assert(old(digits)@.take(i as int).drop_last() =~= old(digits)@.take(i - 1));
        }
        match digit_of(c) {
            Some(d) => {
                if d == 9 {
                    digits.set(i - 1, '0');
                } else {
                    digits.set(i - 1, digit((d + 1) as u64));
                    assert(digits@ =~= old(digits)@.take(i as int).drop_last().push(
                        digit_char((d + 1) as nat),
                    ) + zeros((digits.len() - i) as nat));
                    return false;
                }
            },
            None => {
                assert(digits@ =~= old(digits)@.take(i as int) + zeros((digits.len() - i) as nat));
                return false;
            },
        }
        i = i - 1;
    }
    proof {
        lemma_incremented_nines(old(digits)@, 0);
        assert(old(digits)@.take(0) =~= Seq::<char>::empty());
        assert(digits@ =~= Seq::<char>::empty() + zeros(digits.len() as nat));
    }
    true
}

/// Whether a decimal goes up when it is rounded to `p` significant digits.
pub fn goes_up(d: &Decimal, p: usize) -> (r: bool)
    ensures
        r == rounds_up(d.digits@, p as nat),
{
    p < d.digits.len() && match digit_of(d.digits[p]) {
        Some(v) => v >= 5,
        None => false,
    }
}

/// Cuts a decimal off after `p` significant digits, and then, if `up`, adds
/// one at the last of them.
pub fn round_decimal_to(d: &Decimal, p: usize, up: bool) -> (r: Decimal)
    requires
        d.exponent < i64::MAX,
    ensures
        r@ == rounded_to(d@, p as nat, up),
{
    let keep = if d.digits.len() <= p {
        d.digits.len()
    } else {
        p
    };
    let mut digits: Vec<char> = Vec::new();
    let mut i: usize = 0;
    while i < keep
        invariant
            i <= keep <= d.digits.len(),
            digits@ == d.digits@.take(i as int),
        decreases keep - i,
    {
        digits.push(d.digits[i]);
        assert(digits@ =~= d.digits@.take(i + 1));
        i = i + 1;
    }
    if d.digits.len() <= p {
        assert(d.digits@.take(keep as int) =~= d.digits@);
    } else if up {
        if increment(&mut digits) {
            let mut one: Vec<char> = Vec::new();
            one.push('1');
            assert(one@ =~= seq!['1']);
            return Decimal { negative: d.negative, digits: one, exponent: d.exponent + 1 };
        }
    }
    trim(&mut digits);
    Decimal { negative: d.negative, digits, exponent: d.exponent }
}

/// Rounds a decimal to `p` significant digits, a half going up.
pub fn round_decimal(d: &Decimal, p: usize) -> (r: Decimal)
    requires
        d.exponent < i64::MAX,
    ensures
        r@ == rounded(d@, p as nat),
{
    round_decimal_to(d, p, goes_up(d, p))
}

/// Writes a decimal out place by place, without an exponent.
pub fn to_positional(d: &Decimal) -> (r: String)
    ensures
        r@ == positional(d@),
{
    let mut text = String::new();
    if d.negative {
        text.push('-');
    }
    let ghost sign = text@;
    if d.exponent < 0 {
        text.push('0');
        text.push('.');
        let count: u64 = (-(d.exponent + 1)) as u64;
        let mut k: u64 = 0;
        while k < count
            invariant
                k <= count,
                text@ == sign + seq!['0', '.'] + zeros(k as nat),
            decreases count - k,
        {
            text.push('0');
            assert(text@ =~= sign + seq!['0', '.'] + zeros((k + 1) as nat));
            k = k + 1;
        }
        let mut i: usize = 0;
        while i < d.digits.len()
            invariant
                i <= d.digits.len(),
                text@ == sign + seq!['0', '.'] + zeros(count as nat) + d.digits@.take(i as int),
            decreases d.digits.len() - i,
        {
            text.push(d.digits[i]);
            assert(text@ =~= sign + seq!['0', '.'] + zeros(count as nat) + d.digits@.take(i + 1));
            i = i + 1;
        }
        assert(d.digits@.take(d.digits.len() as int) =~= d.digits@);
        text
    } else {
        let places: u64 = d.exponent as u64 + 1;
        let mut k: u64 = 0;
        while k < places
            invariant
                k <= places == d.exponent + 1,
                text@ == sign + whole_part(d@).take(k as int),
            decreases places - k,
        {
            let c = if k < d.digits.len() as u64 {
                d.digits[k as usize]
            } else {
                '0'
            };
            text.push(c);
            assert(text@ =~= sign + whole_part(d@).take(k + 1));
            k = k + 1;
        }
        assert(whole_part(d@).take(places as int) =~= whole_part(d@));
        if d.digits.len() as u64 > places {
            text.push('.');
            let mut i: usize = places as usize;
            while i < d.digits.len()
                invariant
                    places <= i <= d.digits.len(),
                    text@ == sign + whole_part(d@) + seq!['.'] + d.digits@.subrange(
                        places as int,
                        i as int,
                    ),
                decreases d.digits.len() - i,
            {
                text.push(d.digits[i]);
                assert(text@ =~= sign + whole_part(d@) + seq!['.'] + d.digits@.subrange(
                    places as int,
                    i + 1,
                ));
                i = i + 1;
            }
            assert(d.digits@.subrange(places as int, d.digits.len() as int) =~= d.digits@.skip(
                places as int,
            ));
        }
        text
    }
}

/// The shortest decimal that says a pattern again, given the text of the
/// pattern in scientific notation.
pub fn shortest(bits: u64, exact: &str) -> (r: String)
    ensures
        r@ == shortest_decimal(bits, exact@),
{
    let d = match scan(exact) {
        None => {
            return exact.to_owned();
        },
        Some(d) => d,
    };
    let mut precision: usize = 1;
    loop
        invariant
            1 <= precision <= 17,
            scanned(exact@) == Some(d@),
            -10000 < d.exponent < 10000,
            shortest_from(bits, d@, 1) == shortest_from(bits, d@, precision as nat),
        decreases 17 - precision,
    {
        let up = goes_up(&d, precision);
        let nearer = to_positional(&round_decimal_to(&d, precision, up));
        if precision >= 17 {
            return nearer;
        }
        if let Some(back) = soft_parsed_text(nearer.as_str()) {
            if back == bits {
                return nearer;
            }
        }
        let other = to_positional(&round_decimal_to(&d, precision, !up));
        if let Some(back) = soft_parsed_text(other.as_str()) {
            if back == bits {
                return other;
            }
        }
        precision = precision + 1;
    }
}

impl Number {
    /// The decimal text of the number.
    pub fn to_text(self) -> (r: String)
        ensures
            r@ == number_text(self.bits),
    {
        let negative = (self.bits & SIGN_MASK) != 0;
        if self.is_nan() {
            return "NaN".to_owned();
        }
        if (self.bits & MAGNITUDE_MASK) == INFINITY_BITS {
            return if negative {
                "-inf".to_owned()
            } else {
                "inf".to_owned()
            };
        }
        let m = self.magnitude();
        proof {
            lemma2_to64_rest();
        }
        if m < 0x0020_0000_0000_0000 && Number::from_magnitude(m).bits == (self.bits
            & MAGNITUDE_MASK) {
            let mut text = if negative {
                "-".to_owned()
            } else {
                String::new()
            };
            push_decimal(&mut text, m);
            text
        } else {
            let exact = soft_scientific_text(self.bits, 1000);
            shortest(self.bits, exact.as_str())
        }
    }
}

} // verus!
