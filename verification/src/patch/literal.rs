//! The integer literals of a configuration document.
//!
//! A literal may hold underscores between its digits. It is hexadecimal after
//! `0x` or `0X`, a bit pattern after `#` or `0b`, and decimal otherwise. In a
//! bit pattern `x` marks a bit whose value does not matter; it counts as `0`.

use crate::patch::text::chars_of;
use vstd::prelude::*;

verus! {

/// What `c` is worth as a digit: `0` to `9`, then the letters of either case
/// from ten on.
pub open spec fn digit_of(c: char) -> Option<int> {
    if '0' as int <= c as int <= '9' as int {
        Some(c as int - '0' as int)
    } else if 'a' as int <= c as int <= 'z' as int {
        Some(c as int - 'a' as int + 10)
    } else if 'A' as int <= c as int <= 'Z' as int {
        Some(c as int - 'A' as int + 10)
    } else {
        None
    }
}

/// Whether `c` is a digit of the base `radix`.
pub open spec fn is_digit(c: char, radix: int) -> bool {
    digit_of(c) matches Some(d) && d < radix
}

/// Whether `text` holds digits of the base `radix` only.
pub open spec fn all_digits(text: Seq<char>, radix: int) -> bool {
    forall|i: int| 0 <= i < text.len() ==> is_digit(#[trigger] text[i], radix)
}

/// The number that the digits `text` spell in the base `radix`.
pub open spec fn digits_value(text: Seq<char>, radix: int) -> int
    decreases text.len(),
{
    if text.len() == 0 {
        0
    } else {
        digits_value(text.drop_last(), radix) * radix + digit_of(text.last()).unwrap()
    }
}

/// The number that the digits `digits` spell in the base `radix`, taken below
/// zero where `negative` says so. There is none where `digits` is empty,
/// holds anything but digits of that base, or spells a number that does not
/// fit.
pub open spec fn digits_number(digits: Seq<char>, radix: int, negative: bool) -> Option<i64> {
    let size = digits_value(digits, radix);
    let value = if negative {
        -size
    } else {
        size
    };
    if digits.len() > 0 && all_digits(digits, radix) && i64::MIN <= value <= i64::MAX {
        Some(value as i64)
    } else {
        None
    }
}

/// The number that `text` spells in the base `radix`: an optional sign, then
/// at least one digit, and nothing else.
pub open spec fn number_of(text: Seq<char>, radix: int) -> Option<i64> {
    if text.len() == 0 {
        None
    } else if text[0] == '-' {
        digits_number(text.drop_first(), radix, true)
    } else if text[0] == '+' {
        digits_number(text.drop_first(), radix, false)
    } else {
        digits_number(text, radix, false)
    }
}

/// `text` without its underscores.
pub open spec fn without_underscores(text: Seq<char>) -> Seq<char> {
    text.filter(|c: char| c != '_')
}

/// `text` with `0` in place of each `x`.
pub open spec fn zeroed(text: Seq<char>) -> Seq<char> {
    text.map_values(
        |c: char|
            if c == 'x' {
                '0'
            } else {
                c
            },
    )
}

/// Whether `text` begins with the two characters `first` and `second`.
pub open spec fn begins_with(text: Seq<char>, first: char, second: char) -> bool {
    text.len() >= 2 && text[0] == first && text[1] == second
}

/// The lower-case form of `text`, as `str::to_lowercase` gives it.
pub uninterp spec fn lowercase(text: Seq<char>) -> Seq<char>;

/// The number of a bit pattern that begins with `#`, given in lower case: the
/// first character is passed over, `x` counts as `0`, and the rest is read
/// in base two.
pub open spec fn pattern_value(lowered: Seq<char>) -> Option<i64> {
    if lowered.len() == 0 {
        None
    } else {
        number_of(zeroed(lowered.drop_first()), 2)
    }
}

/// The number that the literal `text` spells.
pub open spec fn int_literal(text: Seq<char>) -> Option<i64> {
    let plain = without_underscores(text);
    if begins_with(plain, '0', 'x') || begins_with(plain, '0', 'X') {
        number_of(plain.skip(2), 16)
    } else if plain.len() > 0 && plain[0] == '#' {
        pattern_value(lowercase(plain))
    } else if begins_with(plain, '0', 'b') {
        number_of(zeroed(plain.skip(2)), 2)
    } else {
        number_of(plain, 10)
    }
}

/// The digits before the last spell a number that is not negative and not
/// above the whole.
proof fn lemma_digits_grow(text: Seq<char>, radix: int, k: int)
    requires
        2 <= radix,
        all_digits(text, radix),
        0 <= k <= text.len(),
    ensures
        0 <= digits_value(text.take(k), radix) <= digits_value(text, radix),
    decreases text.len(),
{
    if text.len() > 0 {
        let front = text.drop_last();
        let whole = digits_value(front, radix);
        if k == text.len() {
            assert(text.take(k) =~= text);
            lemma_digits_grow(front, radix, 0);
        } else {
            assert(front.take(k) =~= text.take(k));
            lemma_digits_grow(front, radix, k);
        }
        lemma_digits_grow(front, radix, front.len() as int);
        assert(whole * radix >= whole) by (nonlinear_arith)
            requires
                whole >= 0,
                radix >= 2,
        ;
    }
}

/// What `c` is worth as a digit.
pub fn digit(c: char) -> (d: Option<u32>)
    ensures
        match d {
            Some(d) => digit_of(c) == Some(d as int),
            None => digit_of(c) is None,
        },
{
    let code = c as u32;
    if '0' as u32 <= code && code <= '9' as u32 {
        Some(code - '0' as u32)
    } else if 'a' as u32 <= code && code <= 'z' as u32 {
        Some(code - 'a' as u32 + 10)
    } else if 'A' as u32 <= code && code <= 'Z' as u32 {
        Some(code - 'A' as u32 + 10)
    } else {
        None
    }
}

/// Reads what stands in `text` from `begin` on as the digits of a number in
/// the base `radix`, which is taken below zero where `negative` says so.
pub fn parse_digits(text: &Vec<char>, begin: usize, radix: u32, negative: bool) -> (number: Option<
    i64,
>)
    requires
        2 <= radix <= 36,
        begin <= text.len(),
    ensures
        number == digits_number(text@.skip(begin as int), radix as int, negative),
{
    let ghost digits = text@.skip(begin as int);
    if begin >= text.len() {
        return None;
    }
    let mut value: i64 = 0;
    let mut i = begin;
    while i < text.len()
        invariant
            2 <= radix <= 36,
            begin <= i <= text.len(),
            begin < text.len(),
            digits == text@.skip(begin as int),
            all_digits(digits.take(i - begin), radix as int),
            value == if negative {
                -digits_value(digits.take(i - begin), radix as int)
            } else {
                digits_value(digits.take(i - begin), radix as int)
            },
        decreases text.len() - i,
    {
        let ghost seen = digits.take(i - begin);
        let ghost next = digits.take(i - begin + 1);
        let ghost size = digits_value(seen, radix as int);
        assert(next.drop_last() =~= seen);
        let d = match digit(text[i]) {
            Some(d) => d,
            None => {
                assert(!is_digit(digits[i - begin], radix as int));
                return None;
            },
        };
        if d >= radix {
            return None;
        }
        assert(all_digits(next, radix as int)) by {
            assert forall|j: int| 0 <= j < next.len() implies is_digit(
                #[trigger] next[j],
                radix as int,
            ) by {
                assert(j < seen.len() ==> next[j] == seen[j]);
            }
        }
        proof {
            lemma_digits_grow(seen, radix as int, 0);
            if all_digits(digits, radix as int) {
                lemma_digits_grow(digits, radix as int, i - begin + 1);
            }
            assert(size * radix >= 0 && (-size) * radix == -(size * radix)) by (nonlinear_arith)
                requires
                    size >= 0,
                    radix >= 2,
            ;
        }
        let scaled = match value.checked_mul(radix as i64) {
            Some(scaled) => scaled,
            None => {
                return None;
            },
        };
        let sum = if negative {
            scaled.checked_sub(d as i64)
        } else {
            scaled.checked_add(d as i64)
        };
        value = match sum {
            Some(sum) => sum,
            None => {
                return None;
            },
        };
        i += 1;
    }
    assert(digits.take(i - begin) =~= digits);
    Some(value)
}

/// Reads what stands in `text` from `start` on as a number in the base
/// `radix`.
pub fn parse_radix(text: &Vec<char>, start: usize, radix: u32) -> (number: Option<i64>)
    requires
        2 <= radix <= 36,
        start <= text.len(),
    ensures
        number == number_of(text@.skip(start as int), radix as int),
{
    if start >= text.len() {
        return None;
    }
    assert(text@.skip(start as int).drop_first() =~= text@.skip(start + 1));
    if text[start] == '-' {
        parse_digits(text, start + 1, radix, true)
    } else if text[start] == '+' {
        parse_digits(text, start + 1, radix, false)
    } else {
        parse_digits(text, start, radix, false)
    }
}

/// `str::to_lowercase`, from characters to characters: the lower-case form of
/// the text that `text` spells.
#[verifier::external_body]
fn to_lowercase(text: &Vec<char>) -> (lowered: Vec<char>)
    ensures
        lowered@ == lowercase(text@),
{
    text.iter().collect::<String>().to_lowercase().chars().collect()
}

/// The characters of `text` without the underscores.
pub fn strip_underscores(text: &str) -> (plain: Vec<char>)
    ensures
        plain@ == without_underscores(text@),
{
    let chars = chars_of(text);
    let ghost keeps = |c: char| c != '_';
    let mut plain: Vec<char> = Vec::new();
    let mut i: usize = 0;
    assert(chars@.take(0).filter(keeps) =~= Seq::<char>::empty()) by {
        reveal(Seq::filter);
    }
    while i < chars.len()
        invariant
            i <= chars.len(),
            chars@ == text@,
            keeps == |c: char| c != '_',
            plain@ == chars@.take(i as int).filter(keeps),
        decreases chars.len() - i,
    {
        proof {
            assert(chars@.take(i + 1) =~= chars@.take(i as int).push(chars[i as int]));
            chars@.take(i as int).lemma_filter_push(chars[i as int], keeps);
        }
        if chars[i] != '_' {
            plain.push(chars[i]);
        }
        i += 1;
    }
    assert(chars@.take(i as int) =~= chars@);
    plain
}

/// What stands in `text` from `start` on, with `0` in place of each `x`.
pub fn zero_dont_cares(text: &Vec<char>, start: usize) -> (bits: Vec<char>)
    requires
        start <= text.len(),
    ensures
        bits@ == zeroed(text@.skip(start as int)),
{
    let mut bits: Vec<char> = Vec::new();
    let mut i = start;
    while i < text.len()
        invariant
            start <= i <= text.len(),
            bits.len() == i - start,
            forall|j: int|
                0 <= j < bits.len() ==> bits[j] == if text[start + j] == 'x' {
                    '0'
                } else {
                    text[start + j]
                },
        decreases text.len() - i,
    {
        if text[i] == 'x' {
            bits.push('0');
        } else {
            bits.push(text[i]);
        }
        i += 1;
    }
    bits
}

/// Reads a bit pattern that begins with `#` and was brought to lower case.
pub fn parse_pattern(lowered: &Vec<char>) -> (number: Option<i64>)
    ensures
        number == pattern_value(lowered@),
{
    if lowered.len() == 0 {
        return None;
    }
    let bits = zero_dont_cares(lowered, 1);
    assert(bits@.skip(0) =~= bits@);
    parse_radix(&bits, 0, 2)
}

/// Reads an integer literal; nothing where `text` is none.
pub fn parse_int_literal(text: &str) -> (number: Option<i64>)
    ensures
        number == int_literal(text@),
{
    let plain = strip_underscores(text);
    let n = plain.len();
    if n >= 2 && plain[0] == '0' && (plain[1] == 'x' || plain[1] == 'X') {
        parse_radix(&plain, 2, 16)
    } else if n >= 1 && plain[0] == '#' {
        let lowered = to_lowercase(&plain);
        parse_pattern(&lowered)
    } else if n >= 2 && plain[0] == '0' && plain[1] == 'b' {
        let bits = zero_dont_cares(&plain, 2);
        assert(bits@.skip(0) =~= bits@);
        parse_radix(&bits, 0, 2)
    } else {
        assert(plain@.skip(0) =~= plain@);
        parse_radix(&plain, 0, 10)
    }
}

} // verus!
