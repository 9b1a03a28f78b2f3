//! Fixed-point money: amounts are integers counting hundredths of a currency
//! unit. Binary floating point is deliberately avoided so that repeated
//! borrow/repay cycles cannot accumulate rounding drift.

use vstd::prelude::*;

verus! {

use crate::AMOUNT_LIMIT;

/// Largest whole-unit part an amount may have: `AMOUNT_LIMIT` hundredths.
pub const WHOLE_LIMIT: u64 = 9_999_999_999_999_999;

pub open spec fn is_digit_char(c: char) -> bool {
    '0' <= c && c <= '9'
}

pub open spec fn digit_val(c: char) -> int {
    c as int - '0' as int
}

pub open spec fn all_digits(s: Seq<char>) -> bool {
    forall|i: int| 0 <= i < s.len() ==> is_digit_char(#[trigger] s[i])
}

/// The number denoted by a string of decimal digits, most significant first.
pub open spec fn digits_val(s: Seq<char>) -> int
    decreases s.len(),
{
    if s.len() == 0 {
        0
    } else {
        digits_val(s.drop_last()) * 10 + digit_val(s.last())
    }
}

/// The amount, in hundredths, denoted by a numeral: a non-empty run of
/// digits, optionally followed by a decimal point and one or two digits.
/// Anything else does not denote an amount.
pub open spec fn amount_spec(s: Seq<char>) -> Option<int> {
    if s.len() >= 1 && all_digits(s) {
        Some(digits_val(s) * 100)
    } else if s.len() >= 3 && s[s.len() - 2] == '.' && all_digits(s.take(s.len() - 2))
        && is_digit_char(s[s.len() - 1]) {
        Some(digits_val(s.take(s.len() - 2)) * 100 + digit_val(s[s.len() - 1]) * 10)
    } else if s.len() >= 4 && s[s.len() - 3] == '.' && all_digits(s.take(s.len() - 3))
        && is_digit_char(s[s.len() - 2]) && is_digit_char(s[s.len() - 1]) {
        Some(
            digits_val(s.take(s.len() - 3)) * 100 + digit_val(s[s.len() - 2]) * 10 + digit_val(
                s[s.len() - 1],
            ),
        )
    } else {
        None
    }
}

/// Whether a text reads as an in-range amount.
pub open spec fn reads_as_value(s: Seq<char>) -> bool {
    amount_spec(s) is Some && amount_spec(s)->Some_0 <= crate::AMOUNT_LIMIT
}

/// Whether a text reads as a well-formed numeral with a minus sign.
pub open spec fn reads_as_negative(s: Seq<char>) -> bool {
    s.len() >= 1 && s[0] == '-' && amount_spec(s.skip(1)) is Some
}

/// How a text field's contents read as an amount: a value in hundredths,
/// a well-formed numeral preceded by a minus sign, or neither.
#[derive(Clone, Copy, Debug, PartialEq, Eq, Structural)]
pub enum MoneyParse {
    Value(u64),
    Negative,
    Invalid,
}

proof fn lemma_digits_val_nonneg(s: Seq<char>)
    requires
        all_digits(s),
    ensures
        digits_val(s) >= 0,
    decreases s.len(),
{
    if s.len() > 0 {
        assert(all_digits(s.drop_last()));
        lemma_digits_val_nonneg(s.drop_last());
    }
}

proof fn lemma_digits_val_prefix_le(s: Seq<char>, i: int)
    requires
        all_digits(s),
        0 <= i <= s.len(),
    ensures
        digits_val(s.take(i)) <= digits_val(s),
    decreases s.len() - i,
{
    if i < s.len() {
        let t = s.take(i + 1);
        assert(t.drop_last() =~= s.take(i));
        assert(all_digits(t));
        assert(all_digits(s.take(i)));
        lemma_digits_val_nonneg(s.take(i));
        assert(digits_val(t) == digits_val(s.take(i)) * 10 + digit_val(s[i]));
        assert(digits_val(s.take(i)) <= digits_val(t));
        lemma_digits_val_prefix_le(s, i + 1);
        assert(s.take(s.len() as int) =~= s);
    } else {
        assert(s.take(i) =~= s);
    }
}

/// True when every character of `s` from `from` to `to` is a digit.
fn digits_only(s: &str, from: usize, to: usize) -> (r: bool)
    requires
        from <= to <= s@.len(),
    ensures
        r == all_digits(s@.subrange(from as int, to as int)),
{
    let ghost part = s@.subrange(from as int, to as int);
    let mut i: usize = from;
    while i < to
        invariant
            from <= i <= to <= s@.len(),
            part == s@.subrange(from as int, to as int),
            forall|j: int| 0 <= j < i - from ==> is_digit_char(#[trigger] part[j]),
        decreases to - i,
    {
        let c = s.get_char(i);
        assert(c == part[i - from]);
        if !(c >= '0' && c <= '9') {
            assert(!is_digit_char(part[i - from]));
            return false;
        }
        i = i + 1;
    }
    true
}

/// Reads the digits of `s` from `from` (inclusive) to `to` (exclusive),
/// which the caller has checked are all digits, and returns their value
/// unless it exceeds `WHOLE_LIMIT`.
fn digits_to_value(s: &str, from: usize, to: usize) -> (r: Option<u64>)
    requires
        from <= to <= s@.len(),
        all_digits(s@.subrange(from as int, to as int)),
    ensures
        match r {
            Some(v) => v == digits_val(s@.subrange(from as int, to as int)) && v <= WHOLE_LIMIT,
            None => digits_val(s@.subrange(from as int, to as int)) > WHOLE_LIMIT,
        },
{
    let ghost whole = s@.subrange(from as int, to as int);
    let mut acc: u64 = 0;
    let mut i: usize = from;
    while i < to
        invariant
            from <= i <= to <= s@.len(),
            all_digits(whole),
            whole == s@.subrange(from as int, to as int),
            acc == digits_val(whole.take(i - from)),
            acc <= WHOLE_LIMIT,
        decreases to - i,
    {
        let c = s.get_char(i);
        assert(c == whole[i - from]);
        assert(is_digit_char(c));
        let d: u64 = (c as u32 as u64) - ('0' as u32 as u64);
        assert(d == digit_val(c));
        assert(d <= 9);
        proof {
            let t = whole.take(i - from + 1);
            assert(t.drop_last() =~= whole.take(i - from));
            assert(t.last() == whole[i - from]);
            assert(digits_val(t) == acc * 10 + d);
        }
        if acc > (WHOLE_LIMIT - d) / 10 {
            proof {
                lemma_digits_val_prefix_le(whole, i - from + 1);
            }
            return None;
        }
        acc = acc * 10 + d;
        i = i + 1;
    }
    assert(whole.take(to - from) =~= whole);
    Some(acc)
}

/// Whether the characters of `s` from `from` onwards form a well-formed
/// numeral (digits, optionally a decimal point with one or two digits).
fn amount_shape_ok(s: &str, from: usize) -> (r: bool)
    requires
        from <= s@.len(),
    ensures
        r == (amount_spec(s@.skip(from as int)) is Some),
{
    let ghost tail = s@.skip(from as int);
    let n = s.unicode_len();
    let m = n - from;
    proof {
        assert(tail =~= s@.subrange(from as int, n as int));
        assert(tail.len() == m);
    }
    if m >= 1 && digits_only(s, from, n) {
        return true;
    }
    proof {
        assert(!(tail.len() >= 1 && all_digits(tail)));
    }
    if m >= 3 && s.get_char(n - 2) == '.' && digits_only(s, from, n - 2) && {
        let c = s.get_char(n - 1);
        c >= '0' && c <= '9'
    } {
        proof {
            assert(tail[m - 2] == s@[n - 2]);
            assert(tail[m - 1] == s@[n - 1]);
            assert(tail.take(m - 2) =~= s@.subrange(from as int, n - 2));
            assert(amount_spec(tail) is Some);
        }
        return true;
    }
    if m >= 4 && s.get_char(n - 3) == '.' && digits_only(s, from, n - 3) && {
        let c1 = s.get_char(n - 2);
        let c2 = s.get_char(n - 1);
        c1 >= '0' && c1 <= '9' && c2 >= '0' && c2 <= '9'
    } {
        proof {
            assert(tail[m - 3] == s@[n - 3]);
            assert(tail[m - 2] == s@[n - 2]);
            assert(tail[m - 1] == s@[n - 1]);
            assert(tail.take(m - 3) =~= s@.subrange(from as int, n - 3));
            assert(tail[m - 2] != '.');
            assert(amount_spec(tail) is Some);
        }
        return true;
    }
    proof {
        if m >= 3 && tail[m - 2] == '.' {
            assert(s@[n - 2] == tail[m - 2]);
            assert(tail.take(m - 2) =~= s@.subrange(from as int, n - 2));
            assert(tail[m - 1] == s@[n - 1]);
        }
        if m >= 4 && tail[m - 3] == '.' {
            assert(s@[n - 3] == tail[m - 3]);
            assert(tail.take(m - 3) =~= s@.subrange(from as int, n - 3));
            assert(tail[m - 2] == s@[n - 2]);
            assert(tail[m - 1] == s@[n - 1]);
        }
        assert(amount_spec(tail) is None);
    }
    false
}

/// Reads the whole of `s` as a numeral and returns its value in hundredths,
/// unless the string is not a numeral or the value is out of range.
fn scan_amount(s: &str) -> (r: Option<u64>)
    ensures
        match r {
            Some(v) => amount_spec(s@) == Some(v as int) && v <= AMOUNT_LIMIT,
            None => !(amount_spec(s@) is Some && amount_spec(s@)->Some_0 <= AMOUNT_LIMIT),
        },
{
    let ghost w = s@;
    let n = s.unicode_len();
    proof {
        assert(w =~= w.subrange(0, n as int));
    }
    if n >= 1 && digits_only(s, 0, n) {
        assert(all_digits(w));
        match digits_to_value(s, 0, n) {
            Some(v) => {
                assert(amount_spec(w) == Some(v * 100 as int));
                assert(v * 100 <= AMOUNT_LIMIT);
                return Some(v * 100);
            },
            None => {
                proof {
                    assert(digits_val(w) > WHOLE_LIMIT);
                    assert(digits_val(w) * 100 > WHOLE_LIMIT * 100) by (nonlinear_arith)
                        requires
                            digits_val(w) > WHOLE_LIMIT,
                    ;
                }
                return None;
            },
        }
    }
    proof {
        assert(!(w.len() >= 1 && all_digits(w)));
    }
    if n >= 3 && s.get_char(n - 2) == '.' && digits_only(s, 0, n - 2) && {
        let c = s.get_char(n - 1);
        c >= '0' && c <= '9'
    } {
        let ghost whole = w.subrange(0, n - 2);
        proof {
            assert(whole =~= w.take(w.len() - 2));
            assert(amount_spec(w) == Some(
                digits_val(w.take(w.len() - 2)) * 100 + digit_val(w[w.len() - 1]) * 10,
            ));
        }
        let c = s.get_char(n - 1);
        let f: u64 = (c as u32 as u64) - ('0' as u32 as u64);
        assert(f == digit_val(w[w.len() - 1]) && f <= 9);
        match digits_to_value(s, 0, n - 2) {
            Some(v) => {
                let total = v * 100 + f * 10;
                assert(amount_spec(w) == Some(total as int));
                assert(total <= AMOUNT_LIMIT);
                return Some(total);
            },
            None => {
                proof {
                    assert(digits_val(whole) > WHOLE_LIMIT);
                    assert(digits_val(whole) * 100 > WHOLE_LIMIT * 100) by (nonlinear_arith)
                        requires
                            digits_val(whole) > WHOLE_LIMIT,
                    ;
                }
                return None;
            },
        }
    }
    if n >= 4 && s.get_char(n - 3) == '.' && digits_only(s, 0, n - 3) && {
        let c1 = s.get_char(n - 2);
        let c2 = s.get_char(n - 1);
        c1 >= '0' && c1 <= '9' && c2 >= '0' && c2 <= '9'
    } {
        let ghost whole = w.subrange(0, n - 3);
        proof {
            assert(whole =~= w.take(w.len() - 3));
            assert(w[w.len() - 2] != '.');
            assert(amount_spec(w) == Some(
                digits_val(w.take(w.len() - 3)) * 100 + digit_val(w[w.len() - 2]) * 10 + digit_val(
                    w[w.len() - 1],
                ),
            ));
        }
        let c1 = s.get_char(n - 2);
        let c2 = s.get_char(n - 1);
        let f1: u64 = (c1 as u32 as u64) - ('0' as u32 as u64);
        let f2: u64 = (c2 as u32 as u64) - ('0' as u32 as u64);
        assert(f1 == digit_val(w[w.len() - 2]) && f1 <= 9);
        assert(f2 == digit_val(w[w.len() - 1]) && f2 <= 9);
        match digits_to_value(s, 0, n - 3) {
            Some(v) => {
                let total = v * 100 + f1 * 10 + f2;
                assert(amount_spec(w) == Some(total as int));
                assert(total <= AMOUNT_LIMIT);
                return Some(total);
            },
            None => {
                proof {
                    assert(digits_val(whole) > WHOLE_LIMIT);
                    assert(digits_val(whole) * 100 > WHOLE_LIMIT * 100) by (nonlinear_arith)
                        requires
                            digits_val(whole) > WHOLE_LIMIT,
                    ;
                }
                return None;
            },
        }
    }
    proof {
        if w.len() >= 3 && w[w.len() - 2] == '.' {
            assert(w.take(w.len() - 2) =~= w.subrange(0, n - 2));
        }
        if w.len() >= 4 && w[w.len() - 3] == '.' {
            assert(w.take(w.len() - 3) =~= w.subrange(0, n - 3));
        }
        assert(amount_spec(w) is None);
    }
    None
}

/// The character for one decimal digit.
pub open spec fn digit_char(d: int) -> char {
    if d == 0 {
        '0'
    } else if d == 1 {
        '1'
    } else if d == 2 {
        '2'
    } else if d == 3 {
        '3'
    } else if d == 4 {
        '4'
    } else if d == 5 {
        '5'
    } else if d == 6 {
        '6'
    } else if d == 7 {
        '7'
    } else if d == 8 {
        '8'
    } else {
        '9'
    }
}

/// The decimal digits of a number, most significant first.
pub open spec fn digits_str(n: nat) -> Seq<char>
    decreases n,
{
    if n < 10 {
        seq![digit_char(n as int)]
    } else {
        digits_str(n / 10).push(digit_char((n % 10) as int))
    }
}

/// Digits grouped by thousands with commas, as the summary screens show
/// whole amounts.
pub open spec fn grouped(s: Seq<char>) -> Seq<char>
    decreases s.len(),
{
    if s.len() <= 3 {
        s
    } else {
        grouped(s.take(s.len() - 3)) + seq![','] + s.skip(s.len() - 3)
    }
}

/// An amount as a plain numeral: the whole units, then, unless zero, a
/// decimal point and the hundredths with trailing zeros dropped. This is
/// exactly the shape `parse_money` reads back.
pub open spec fn numeral_spec(cents: nat) -> Seq<char> {
    let whole = cents / 100;
    let frac = cents % 100;
    if frac == 0 {
        digits_str(whole)
    } else if frac % 10 == 0 {
        digits_str(whole) + seq!['.', digit_char(frac as int / 10)]
    } else {
        digits_str(whole) + seq!['.', digit_char(frac as int / 10), digit_char(frac as int % 10)]
    }
}

/// An amount as the summary screens show it: the whole units grouped by
/// thousands, then the fraction as in the plain numeral.
pub open spec fn format_spec(cents: nat) -> Seq<char> {
    let whole = cents / 100;
    let frac = cents % 100;
    if frac == 0 {
        grouped(digits_str(whole))
    } else if frac % 10 == 0 {
        grouped(digits_str(whole)) + seq!['.', digit_char(frac as int / 10)]
    } else {
        grouped(digits_str(whole)) + seq![
            '.',
            digit_char(frac as int / 10),
            digit_char(frac as int % 10),
        ]
    }
}

proof fn lemma_digits_str_wf(n: nat)
    ensures
        digits_str(n).len() >= 1,
        all_digits(digits_str(n)),
        digits_val(digits_str(n)) == n,
    decreases n,
{
    if n < 10 {
        let s = digits_str(n);
        assert(s =~= seq![digit_char(n as int)]);
        assert(is_digit_char(digit_char(n as int)));
        assert(s.len() == 1);
        assert(s.drop_last() =~= Seq::<char>::empty());
        assert(digits_val(s.drop_last()) == 0);
        assert(s.last() == digit_char(n as int));
        assert(digits_val(s) == digit_val(digit_char(n as int)));
        assert(digit_val(digit_char(n as int)) == n);
    } else {
        lemma_digits_str_wf(n / 10);
        let s = digits_str(n / 10);
        let c = digit_char((n % 10) as int);
        assert(is_digit_char(c));
        assert(digit_val(c) == n % 10);
        assert(s.push(c).drop_last() =~= s);
        assert(s.push(c).last() == c);
        assert(digits_val(s.push(c)) == digits_val(s) * 10 + digit_val(c));
        assert(forall|i: int|
            0 <= i < s.push(c).len() ==> #[trigger] s.push(c)[i] == (if i < s.len() {
                s[i]
            } else {
                c
            }));
    }
}

/// Relies on std's String::push: appends one character.
#[verifier::external_body]
fn push_char(s: &mut String, c: char)
    ensures
        final(s)@ == old(s)@.push(c),
{
    s.push(c);
}

/// The character for one digit value.
fn digit_to_char(d: u64) -> (c: char)
    requires
        d <= 9,
    ensures
        c == digit_char(d as int),
{
    match d {
        0 => '0',
        1 => '1',
        2 => '2',
        3 => '3',
        4 => '4',
        5 => '5',
        6 => '6',
        7 => '7',
        8 => '8',
        _ => '9',
    }
}

/// Appends the decimal digits of `n` to the buffer.
fn push_digits_vec(v: &mut Vec<char>, n: u64)
    ensures
        final(v)@ == old(v)@ + digits_str(n as nat),
    decreases n,
{
    if n < 10 {
        v.push(digit_to_char(n));
        assert(v@ =~= old(v)@ + digits_str(n as nat));
    } else {
        push_digits_vec(v, n / 10);
        v.push(digit_to_char(n % 10));
        assert(v@ =~= old(v)@ + digits_str(n as nat));
    }
}

/// Appends characters `from..to` of the buffer to the string.
fn push_range(out: &mut String, ds: &Vec<char>, from: usize, to: usize)
    requires
        from <= to <= ds@.len(),
    ensures
        final(out)@ == old(out)@ + ds@.subrange(from as int, to as int),
{
    let mut i: usize = from;
    while i < to
        invariant
            from <= i <= to <= ds@.len(),
            out@ == old(out)@ + ds@.subrange(from as int, i as int),
        decreases to - i,
    {
        let c = ds[i];
        push_char(out, c);
        proof {
            assert(out@ =~= old(out)@ + ds@.subrange(from as int, i + 1 as int));
        }
        i = i + 1;
    }
    proof {
        assert(out@ =~= old(out)@ + ds@.subrange(from as int, to as int));
    }
}

/// Appends the first `upto` buffered digits, grouped by thousands.
fn push_grouped(out: &mut String, ds: &Vec<char>, upto: usize)
    requires
        upto <= ds@.len(),
    ensures
        final(out)@ == old(out)@ + grouped(ds@.take(upto as int)),
    decreases upto,
{
    if upto <= 3 {
        push_range(out, ds, 0, upto);
        proof {
            assert(ds@.subrange(0, upto as int) =~= ds@.take(upto as int));
        }
    } else {
        push_grouped(out, ds, upto - 3);
        push_char(out, ',');
        push_range(out, ds, upto - 3, upto);
        proof {
            let t = ds@.take(upto as int);
            assert(t.take(t.len() - 3) =~= ds@.take(upto - 3 as int));
            assert(t.skip(t.len() - 3) =~= ds@.subrange(upto - 3 as int, upto as int));
            assert(out@ =~= old(out)@ + grouped(t));
        }
    }
}

/// Appends the fractional part, if any: a decimal point, the tenths, and
/// the hundredths unless they are zero.
fn push_fraction(out: &mut String, frac: u64)
    requires
        frac < 100,
    ensures
        frac == 0 ==> final(out)@ == old(out)@,
        frac != 0 && frac % 10 == 0 ==> final(out)@ == old(out)@ + seq![
            '.',
            digit_char(frac as int / 10),
        ],
        frac != 0 && frac % 10 != 0 ==> final(out)@ == old(out)@ + seq![
            '.',
            digit_char(frac as int / 10),
            digit_char(frac as int % 10),
        ],
{
    if frac == 0 {
        return ;
    }
    push_char(out, '.');
    push_char(out, digit_to_char(frac / 10));
    if frac % 10 != 0 {
        push_char(out, digit_to_char(frac % 10));
        assert(out@ =~= old(out)@ + seq![
            '.',
            digit_char(frac as int / 10),
            digit_char(frac as int % 10),
        ]);
    } else {
        assert(out@ =~= old(out)@ + seq!['.', digit_char(frac as int / 10)]);
    }
}

/// An amount as a plain numeral, exactly the shape `parse_money` reads
/// back as the same value.
pub fn amount_to_text(cents: u64) -> (r: String)
    ensures
        r@ == numeral_spec(cents as nat),
        amount_spec(r@) == Some(cents as int),
{
    let whole = cents / 100;
    let frac = cents % 100;
    let mut ds: Vec<char> = Vec::new();
    push_digits_vec(&mut ds, whole);
    proof {
        assert(ds@ =~= digits_str(whole as nat));
    }
    let mut out = String::new();
    let n = ds.len();
    push_range(&mut out, &ds, 0, n);
    proof {
        assert(out@ =~= digits_str(whole as nat));
    }
    push_fraction(&mut out, frac);
    proof {
        lemma_digits_str_wf(whole as nat);
        lemma_numeral_parses(cents as nat);
        assert(out@ =~= numeral_spec(cents as nat));
    }
    out
}

/// An amount for display: whole units grouped by thousands, fraction as
/// in the plain numeral.
pub fn format_amount(cents: u64) -> (r: String)
    ensures
        r@ == format_spec(cents as nat),
{
    let whole = cents / 100;
    let frac = cents % 100;
    let mut ds: Vec<char> = Vec::new();
    push_digits_vec(&mut ds, whole);
    proof {
        assert(ds@ =~= digits_str(whole as nat));
    }
    let mut out = String::new();
    let n = ds.len();
    push_grouped(&mut out, &ds, n);
    proof {
        assert(ds@.take(n as int) =~= ds@);
        assert(out@ =~= grouped(digits_str(whole as nat)));
    }
    push_fraction(&mut out, frac);
    proof {
        assert(out@ =~= format_spec(cents as nat));
    }
    out
}

/// The plain numeral of an amount reads back as that amount.
pub proof fn lemma_numeral_parses(cents: nat)
    ensures
        amount_spec(numeral_spec(cents)) == Some(cents as int),
{
    let whole = cents / 100;
    let frac = cents % 100;
    lemma_digits_str_wf(whole);
    let w = digits_str(whole);
    assert(cents == 100 * whole + frac) by {
        vstd::arithmetic::div_mod::lemma_fundamental_div_mod(cents as int, 100);
    };
    assert(0 <= frac < 100) by {
        vstd::arithmetic::div_mod::lemma_mod_bound(cents as int, 100);
    };
    if frac == 0 {
        assert(numeral_spec(cents) == w);
        assert(amount_spec(w) == Some(digits_val(w) * 100));
        assert(digits_val(w) * 100 == cents);
    } else if frac % 10 == 0 {
        let s = w + seq!['.', digit_char(frac as int / 10)];
        assert(numeral_spec(cents) == s);
        assert(s.len() == w.len() + 2);
        assert(s[s.len() - 2] == '.');
        assert(s.take(s.len() - 2) =~= w);
        assert(s[s.len() - 1] == digit_char(frac as int / 10));
        assert(!is_digit_char('.'));
        assert(!all_digits(s)) by {
            assert(s[s.len() - 2] == '.');
        };
        assert(is_digit_char(s[s.len() - 1]) && digit_val(s[s.len() - 1]) == frac as int / 10);
        assert(amount_spec(s) == Some(digits_val(w) * 100 + (frac as int / 10) * 10));
        assert(frac == (frac / 10) * 10 + frac % 10) by {
            vstd::arithmetic::div_mod::lemma_fundamental_div_mod(frac as int, 10);
        };
        assert(digits_val(w) * 100 + (frac as int / 10) * 10 == cents);
    } else {
        let s = w + seq!['.', digit_char(frac as int / 10), digit_char(frac as int % 10)];
        assert(numeral_spec(cents) == s);
        assert(s.len() == w.len() + 3);
        assert(s[s.len() - 3] == '.');
        assert(s.take(s.len() - 3) =~= w);
        assert(s[s.len() - 2] == digit_char(frac as int / 10));
        assert(s[s.len() - 1] == digit_char(frac as int % 10));
        assert(!is_digit_char('.'));
        assert(!all_digits(s)) by {
            assert(s[s.len() - 3] == '.');
        };
        assert(s[s.len() - 2] != '.');
        assert(is_digit_char(s[s.len() - 2]) && digit_val(s[s.len() - 2]) == frac as int / 10);
        assert(is_digit_char(s[s.len() - 1]) && digit_val(s[s.len() - 1]) == frac as int % 10);
        assert(amount_spec(s) == Some(
            digits_val(w) * 100 + (frac as int / 10) * 10 + frac as int % 10,
        ));
        assert(frac == (frac / 10) * 10 + frac % 10) by {
            vstd::arithmetic::div_mod::lemma_fundamental_div_mod(frac as int, 10);
        };
        assert(digits_val(w) * 100 + (frac as int / 10) * 10 + frac as int % 10 == cents);
    }
}

/// Reads a text field as a money amount. A well-formed numeral whose value
/// fits the ledger's range yields `Value`; a well-formed numeral with a
/// leading minus sign yields `Negative`; everything else is `Invalid`.
pub fn parse_money(s: &str) -> (r: MoneyParse)
    ensures
        (r matches MoneyParse::Value(v) ==> amount_spec(s@) == Some(v as int) && v
            <= AMOUNT_LIMIT),
        (amount_spec(s@) is Some && amount_spec(s@)->Some_0 <= AMOUNT_LIMIT ==> r
            == MoneyParse::Value(amount_spec(s@)->Some_0 as u64)),
        r is Negative <==> (s@.len() >= 1 && s@[0] == '-' && amount_spec(s@.skip(1)) is Some),
        r is Invalid <==> (!(s@.len() >= 1 && s@[0] == '-' && amount_spec(s@.skip(1)) is Some) && !(
        amount_spec(s@) is Some && amount_spec(s@)->Some_0 <= AMOUNT_LIMIT)),
        r is Value <==> reads_as_value(s@),
        r is Negative <==> reads_as_negative(s@),
{
    let n = s.unicode_len();
    if n == 0 {
        return MoneyParse::Invalid;
    }
    if s.get_char(0) == '-' {
        proof {
            let w = s@;
            assert(!is_digit_char('-'));
            if w.len() >= 1 && all_digits(w) {
                assert(is_digit_char(w[0]));
                assert(false);
            }
            if w.len() >= 3 && w[w.len() - 2] == '.' && all_digits(w.take(w.len() - 2))
                && is_digit_char(w[w.len() - 1]) {
                assert(w.take(w.len() - 2)[0] == w[0]);
                assert(false);
            }
            if w.len() >= 4 && w[w.len() - 3] == '.' && all_digits(w.take(w.len() - 3))
                && is_digit_char(w[w.len() - 2]) && is_digit_char(w[w.len() - 1]) {
                assert(w.take(w.len() - 3)[0] == w[0]);
                assert(false);
            }
            assert(amount_spec(w) is None);
        }
        if amount_shape_ok(s, 1) {
            return MoneyParse::Negative;
        } else {
            return MoneyParse::Invalid;
        }
    }
    match scan_amount(s) {
        Some(v) => MoneyParse::Value(v),
        None => MoneyParse::Invalid,
    }
}

} // verus!
