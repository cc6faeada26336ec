//! Integers from text, read as `wcstol` reads them where it is left to find the base itself:
//! leading white space is skipped, a sign may follow, `0x` announces hexadecimal and `0` octal
//! digits, and the number ends before the first character that is no digit of its base.

use vstd::prelude::*;

use crate::text;

verus! {

/// Why a text is not read as an integer.
#[derive(Clone, Copy, Debug, PartialEq, Eq, Structural)]
pub enum Error {
    /// The number does not fit.
    Overflow,
    /// There is nothing but white space.
    Empty,
    /// There is no digit where the number should begin.
    InvalidChar,
}

/// Whether `c` has Unicode's `White_Space` property.
pub open spec fn is_white(c: char) -> bool {
    ||| 0x9 <= c as u32 <= 0xd
    ||| c as u32 == 0x20
    ||| c as u32 == 0x85
    ||| c as u32 == 0xa0
    ||| c as u32 == 0x1680
    ||| 0x2000 <= c as u32 <= 0x200a
    ||| 0x2028 <= c as u32 <= 0x2029
    ||| c as u32 == 0x202f
    ||| c as u32 == 0x205f
    ||| c as u32 == 0x3000
}

/// `s` without the white space at its beginning.
pub open spec fn skip_white(s: Seq<char>) -> Seq<char>
    decreases s.len(),
{
    if s.len() > 0 && is_white(s[0]) {
        skip_white(s.skip(1))
    } else {
        s
    }
}

/// What `c` counts for as a digit; sixteen if it is none.
pub open spec fn digit_value(c: char) -> nat {
    if '0' <= c <= '9' {
        (c as u32 - '0' as u32) as nat
    } else if 'a' <= c <= 'f' {
        (c as u32 - 'a' as u32 + 10) as nat
    } else if 'A' <= c <= 'F' {
        (c as u32 - 'A' as u32 + 10) as nat
    } else {
        16
    }
}

/// The number of digits of the given base at the beginning of `s`.
pub open spec fn digit_count(s: Seq<char>, base: nat) -> nat
    decreases s.len(),
{
    if s.len() > 0 && digit_value(s[0]) < base {
        1 + digit_count(s.skip(1), base)
    } else {
        0
    }
}

/// The value of a row of digits.
pub open spec fn digits_value(s: Seq<char>, base: nat) -> nat
    decreases s.len(),
{
    if s.len() == 0 {
        0
    } else {
        digits_value(s.drop_last(), base) * base + digit_value(s.last())
    }
}

/// The integer `n`, if it fits.
pub open spec fn fitting(n: int) -> Result<i32, Error> {
    if i32::MIN <= n <= i32::MAX {
        Ok(n as i32)
    } else {
        Err(Error::Overflow)
    }
}

/// The integer that the digits of the given base at the beginning of `s` make.
pub open spec fn read_digits(s: Seq<char>, base: nat, negative: bool) -> Result<i32, Error> {
    let count = digit_count(s, base);
    let value = digits_value(s.take(count as int), base) as int;
    if count == 0 {
        Err(Error::InvalidChar)
    } else {
        fitting(
            if negative {
                -value
            } else {
                value
            },
        )
    }
}

/// The integer that `s` begins with, after its sign.
pub open spec fn read_unsigned(s: Seq<char>, negative: bool) -> Result<i32, Error> {
    if s.len() > 0 && s[0] == '0' {
        if s.len() > 1 && (s[1] == 'x' || s[1] == 'X') {
            read_digits(s.skip(2), 16, negative)
        } else if s.len() > 1 && '0' <= s[1] <= '9' {
            read_digits(s.skip(1), 8, negative)
        } else {
            Ok(0)
        }
    } else {
        read_digits(s, 10, negative)
    }
}

/// The integer that `s` begins with.
pub open spec fn read(s: Seq<char>) -> Result<i32, Error> {
    let number = skip_white(s);
    if number.len() == 0 {
        Err(Error::Empty)
    } else if number[0] == '-' {
        read_unsigned(number.skip(1), true)
    } else if number[0] == '+' {
        read_unsigned(number.skip(1), false)
    } else {
        read_unsigned(number, false)
    }
}

/// More digits never make a smaller number.
proof fn lemma_value_grows(s: Seq<char>, base: nat, short: int, long: int)
    requires
        base >= 1,
        0 <= short <= long <= s.len(),
    ensures
        digits_value(s.take(short), base) <= digits_value(s.take(long), base),
    decreases long - short,
{
    if short < long {
        lemma_value_grows(s, base, short, long - 1);
        assert(s.take(long).drop_last() =~= s.take(long - 1));
        let before = digits_value(s.take(long - 1), base);
        assert(before <= before * base) by (nonlinear_arith)
            requires
                base >= 1,
        ;
    }
}

/// The digits that are counted are digits, and what follows them is none.
proof fn lemma_digit_count(s: Seq<char>, base: nat)
    ensures
        digit_count(s, base) <= s.len(),
        forall|i: int| 0 <= i < digit_count(s, base) ==> digit_value(#[trigger] s[i]) < base,
        digit_count(s, base) < s.len() ==> digit_value(s[digit_count(s, base) as int]) >= base,
    decreases s.len(),
{
    if s.len() > 0 && digit_value(s[0]) < base {
        let rest = s.skip(1);
        lemma_digit_count(rest, base);
        assert forall|i: int| 0 <= i < digit_count(s, base) implies digit_value(#[trigger] s[i])
            < base by {
            if i > 0 {
                assert(s[i] == rest[i - 1]);
            }
        }
    }
}

/// Whether `c` has Unicode's `White_Space` property.
fn is_whitespace(c: char) -> (r: bool)
    ensures
        r == is_white(c),
{
    let n: u32 = c as u32;
    (0x9 <= n && n <= 0xd) || n == 0x20 || n == 0x85 || n == 0xa0 || n == 0x1680 || (0x2000 <= n
        && n <= 0x200a) || (0x2028 <= n && n <= 0x2029) || n == 0x202f || n == 0x205f || n == 0x3000
}

/// What `c` counts for as a digit; sixteen if it is none.
fn to_digit(c: char) -> (r: u64)
    ensures
        r == digit_value(c),
        r <= 16,
{
    if '0' <= c && c <= '9' {
        (c as u32 - '0' as u32) as u64
    } else if 'a' <= c && c <= 'f' {
        (c as u32 - 'a' as u32 + 10) as u64
    } else if 'A' <= c && c <= 'F' {
        (c as u32 - 'A' as u32 + 10) as u64
    } else {
        16
    }
}

/// Reads the digits of `s` from the character at `start` on.
fn parse_digits(s: &str, start: usize, base: u64, negative: bool) -> (r: Result<i32, Error>)
    requires
        start <= s@.len(),
        1 <= base <= 16,
    ensures
        r == read_digits(s@.skip(start as int), base as nat, negative),
{
    let ghost digits = s@.skip(start as int);
    let ghost count = digit_count(digits, base as nat);
    proof {
        lemma_digit_count(digits, base as nat);
    }
    let len: usize = s.unicode_len();
    let limit: u64 = if negative {
        0x8000_0000
    } else {
        0x7fff_ffff
    };
    let mut value: u64 = 0;
    let mut i: usize = start;
    while i < len && to_digit(s.get_char(i)) < base
        invariant
            start <= i <= len,
            len == s@.len(),
            1 <= base <= 16,
            digits == s@.skip(start as int),
            count == digit_count(digits, base as nat),
            count <= digits.len(),
            forall|k: int| 0 <= k < count ==> digit_value(#[trigger] digits[k]) < base,
            count < digits.len() ==> digit_value(digits[count as int]) >= base,
            i - start <= count,
            limit == if negative { 0x8000_0000u64 } else { 0x7fff_ffffu64 },
            value <= limit,
            value == digits_value(digits.take(i - start), base as nat),
        decreases len - i,
    {
        proof {
            assert(s@[i as int] == digits[i - start]);
            assert(digits.take(i - start + 1).drop_last() =~= digits.take(i - start));
            assert(value * base <= 0x8000_0000 * 16) by (nonlinear_arith)
                requires
                    value <= 0x8000_0000,
                    1 <= base <= 16,
            ;
        }
        value = value * base + to_digit(s.get_char(i));
        i = i + 1;
        if value > limit {
            proof {
                lemma_value_grows(digits, base as nat, i - start, count as int);
            }
            return Err(Error::Overflow);
        }
    }
    assert(i < len ==> s@[i as int] == digits[i - start]);
    if i == start {
        return Err(Error::InvalidChar);
    }
    if negative {
        Ok((-(value as i64)) as i32)
    } else {
        Ok(value as i32)
    }
}

/// Reads the number of `s`, after its sign, from the character at `start` on.
fn parse_unsigned(s: &str, start: usize, negative: bool) -> (r: Result<i32, Error>)
    requires
        start <= s@.len(),
    ensures
        r == read_unsigned(s@.skip(start as int), negative),
{
    let len: usize = s.unicode_len();
    if start < len && s.get_char(start) == '0' {
        if len - start > 1 {
            let c = s.get_char(start + 1);
            if c == 'x' || c == 'X' {
                assert(s@.skip(start as int).skip(2) =~= s@.skip(start + 2));
                return parse_digits(s, start + 2, 16, negative);
            }
            if '0' <= c && c <= '9' {
                assert(s@.skip(start as int).skip(1) =~= s@.skip(start + 1));
                return parse_digits(s, start + 1, 8, negative);
            }
        }
        return Ok(0);
    }
    parse_digits(s, start, 10, negative)
}

/// The integer that `s` begins with.
pub fn fish_wcstoi(s: &str) -> (r: Result<i32, Error>)
    ensures
        r == read(s@),
{
    let len: usize = s.unicode_len();
    let mut start: usize = 0;
    assert(s@.skip(0) =~= s@);
    while start < len && is_whitespace(s.get_char(start))
        invariant
            start <= len,
            len == s@.len(),
            skip_white(s@.skip(start as int)) == skip_white(s@),
        decreases len - start,
    {
        assert(s@.skip(start as int).skip(1) =~= s@.skip(start + 1));
        start = start + 1;
    }
    if start == len {
        return Err(Error::Empty);
    }
    let c = s.get_char(start);
    assert(s@.skip(start as int).skip(1) =~= s@.skip(start + 1));
    if c == '-' {
        parse_unsigned(s, start + 1, true)
    } else if c == '+' {
        parse_unsigned(s, start + 1, false)
    } else {
        parse_unsigned(s, start, false)
    }
}

/// What announces the digits of a base.
pub open spec fn announces(lead: Seq<char>, base: nat) -> bool {
    ||| lead =~= seq![] && base == 10
    ||| lead =~= seq!['0'] && base == 8
    ||| lead =~= seq!['0', 'x'] && base == 16
    ||| lead =~= seq!['0', 'X'] && base == 16
}

/// Whether `sign` is a sign or nothing.
pub open spec fn is_sign(sign: Seq<char>) -> bool {
    sign =~= seq![] || sign =~= seq!['+'] || sign =~= seq!['-']
}

/// Whether `s` is all white space.
pub open spec fn all_white(s: Seq<char>) -> bool {
    forall|i: int| 0 <= i < s.len() ==> is_white(#[trigger] s[i])
}

/// Whether `s` is a row of digits of the given base.
pub open spec fn all_digits(s: Seq<char>, base: nat) -> bool {
    forall|i: int| 0 <= i < s.len() ==> digit_value(#[trigger] s[i]) < base
}

/// What the characters count for as digits.
pub proof fn law_digit_values(c: char)
    ensures
        '0' <= c <= '9' ==> digit_value(c) == c as u32 - 0x30,
        'a' <= c <= 'f' ==> digit_value(c) == c as u32 - 0x61 + 10,
        'A' <= c <= 'F' ==> digit_value(c) == c as u32 - 0x41 + 10,
        !('0' <= c <= '9' || 'a' <= c <= 'f' || 'A' <= c <= 'F') ==> digit_value(c) == 16,
{
}

/// A row of digits counts for what it counts for without the last one, times the base, and the
/// last one.
pub proof fn law_digits_count_by_place(s: Seq<char>, c: char, base: nat)
    ensures
        digits_value(seq![], base) == 0,
        digits_value(s.push(c), base) == digits_value(s, base) * base + digit_value(c),
{
    assert(s.push(c).drop_last() =~= s);
}

/// Blanks and the control characters for spacing are white space; nothing else in ASCII is.
pub proof fn law_ascii_white_space(c: char)
    requires
        (c as u32) < 0x80,
    ensures
        is_white(c) <==> c == ' ' || 9 <= c as u32 <= 13,
{
}

proof fn lemma_skip_white(white: Seq<char>, rest: Seq<char>)
    requires
        all_white(white),
        rest.len() > 0 ==> !is_white(rest[0]),
    ensures
        skip_white(white + rest) == rest,
    decreases white.len(),
{
    if white.len() == 0 {
        assert(white + rest =~= rest);
    } else {
        assert((white + rest)[0] == white[0]);
        assert((white + rest).skip(1) =~= white.skip(1) + rest);
        assert forall|i: int| 0 <= i < white.skip(1).len() implies is_white(
            #[trigger] white.skip(1)[i],
        ) by {
            assert(is_white(white[i + 1]));
        }
        lemma_skip_white(white.skip(1), rest);
    }
}

proof fn lemma_count_digits(digits: Seq<char>, junk: Seq<char>, base: nat)
    requires
        all_digits(digits, base),
        junk.len() > 0 ==> digit_value(junk[0]) >= base,
    ensures
        digit_count(digits + junk, base) == digits.len(),
    decreases digits.len(),
{
    if digits.len() == 0 {
        assert(digits + junk =~= junk);
    } else {
        assert((digits + junk)[0] == digits[0]);
        assert((digits + junk).skip(1) =~= digits.skip(1) + junk);
        assert forall|i: int| 0 <= i < digits.skip(1).len() implies digit_value(
            #[trigger] digits.skip(1)[i],
        ) < base by {
            assert(digit_value(digits[i + 1]) < base);
        }
        lemma_count_digits(digits.skip(1), junk, base);
    }
}

/// Reading passes white space and the sign.
proof fn lemma_read_signed(white: Seq<char>, sign: Seq<char>, number: Seq<char>)
    requires
        all_white(white),
        is_sign(sign),
        sign.len() == 0 ==> number.len() > 0 && !is_white(number[0]) && number[0] != '+'
            && number[0] != '-',
    ensures
        read(white + sign + number) == read_unsigned(number, sign =~= seq!['-']),
{
    let rest = sign + number;
    assert(white + sign + number =~= white + rest);
    if sign.len() > 0 {
        assert(rest[0] == sign[0]);
        assert(rest.skip(1) =~= number);
    } else {
        assert(rest =~= number);
    }
    lemma_skip_white(white, rest);
}

/// White space, a sign, what announces the base, digits of that base, and anything that goes on
/// with none: what is read is the number that the digits make, with that sign, if it fits.
pub proof fn law_numbers_are_read(
    white: Seq<char>,
    sign: Seq<char>,
    lead: Seq<char>,
    digits: Seq<char>,
    junk: Seq<char>,
    base: nat,
)
    requires
        all_white(white),
        is_sign(sign),
        announces(lead, base),
        digits.len() > 0,
        all_digits(digits, base),
        base == 10 ==> digits[0] != '0',
        junk.len() > 0 ==> digit_value(junk[0]) >= base,
    ensures
        ({
            let magnitude = digits_value(digits, base) as int;
            let n = if sign =~= seq!['-'] {
                -magnitude
            } else {
                magnitude
            };
            if -0x8000_0000 <= n <= 0x7fff_ffff {
                read(white + sign + (lead + digits + junk)) == Ok::<i32, Error>(n as i32)
            } else {
                read(white + sign + (lead + digits + junk)) == Err::<i32, Error>(Error::Overflow)
            }
        }),
{
    let number = lead + digits + junk;
    let tail = digits + junk;
    assert(digit_value(digits[0]) < base);
    if lead.len() > 0 {
        assert(number[0] == '0');
        assert(number.skip(lead.len() as int) =~= tail);
        if lead.len() == 2 {
            assert(number[1] == lead[1]);
        } else {
            assert(number[1] == digits[0]);
        }
    } else {
        assert(number =~= tail);
        assert(number[0] == digits[0]);
    }
    lemma_read_signed(white, sign, number);
    lemma_count_digits(digits, junk, base);
    assert(tail.take(digits.len() as int) =~= digits);
}

/// A zero that announces nothing is zero.
pub proof fn law_zero_is_read(white: Seq<char>, sign: Seq<char>, junk: Seq<char>)
    requires
        all_white(white),
        is_sign(sign),
        junk.len() > 0 ==> junk[0] != 'x' && junk[0] != 'X' && !('0' <= junk[0] <= '9'),
    ensures
        read(white + sign + (seq!['0'] + junk)) == Ok::<i32, Error>(0),
{
    let number = seq!['0'] + junk;
    assert(junk.len() > 0 ==> number[1] == junk[0]);
    lemma_read_signed(white, sign, number);
}

/// Where there is nothing but white space there is no number, and nothing wrong with it.
pub proof fn law_white_space_is_empty(white: Seq<char>)
    requires
        all_white(white),
    ensures
        read(white) == Err::<i32, Error>(Error::Empty),
{
    lemma_skip_white(white, seq![]);
    assert(white + Seq::<char>::empty() =~= white);
}

/// Where no digit follows, neither the sign nor what announces a base makes a number.
pub proof fn law_numbers_have_digits(
    white: Seq<char>,
    sign: Seq<char>,
    lead: Seq<char>,
    junk: Seq<char>,
    base: nat,
)
    requires
        all_white(white),
        is_sign(sign),
        announces(lead, base),
        base != 8,
        junk.len() > 0 ==> digit_value(junk[0]) >= base,
        sign.len() == 0 && lead.len() == 0 ==> junk.len() > 0 && !is_white(junk[0]) && junk[0]
            != '+' && junk[0] != '-',
    ensures
        read(white + sign + (lead + junk)) == Err::<i32, Error>(Error::InvalidChar),
{
    let number = lead + junk;
    if lead.len() > 0 {
        assert(number[0] == '0' && number[1] == lead[1]);
        assert(number.skip(2) =~= junk);
    } else {
        assert(number =~= junk);
    }
    lemma_read_signed(white, sign, number);
    lemma_count_digits(seq![], junk, base);
    assert(Seq::<char>::empty() + junk =~= junk);
}

/// A number in decimal has digits only, does not begin with a zero unless it is one, and counts for
/// itself.
proof fn lemma_decimal_reads_back(n: nat)
    ensures
        text::decimal(n).len() > 0,
        all_digits(text::decimal(n), 10),
        digits_value(text::decimal(n), 10) == n,
        n > 0 ==> text::decimal(n)[0] != '0',
    decreases n,
{
    let s = text::decimal(n);
    if n < 10 {
        assert(s.drop_last() =~= seq![]);
        assert(digits_value(s.drop_last(), 10) == 0);
        assert(s.last() == ('0' as u32 + n) as char);
        assert(digit_value(s.last()) == n);
    } else {
        let shorter = text::decimal(n / 10);
        lemma_decimal_reads_back(n / 10);
        assert(s.drop_last() =~= shorter);
        assert(s.last() == ('0' as u32 + n % 10) as char);
        assert(digit_value(s.last()) == n % 10);
        assert forall|i: int| 0 <= i < s.len() implies digit_value(#[trigger] s[i]) < 10 by {
            if i < s.len() - 1 {
                assert(s[i] == shorter[i]);
            }
        }
        assert(s[0] == shorter[0]);
    }
}

/// What is written in decimal is read as the number that was written.
pub proof fn law_written_numbers_read_back(n: i32)
    ensures
        read(text::signed_decimal(n as int)) == Ok::<i32, Error>(n),
{
    let none: Seq<char> = seq![];
    let magnitude: nat = if n < 0 {
        (-n) as nat
    } else {
        n as nat
    };
    let digits = text::decimal(magnitude);
    lemma_decimal_reads_back(magnitude);
    text::law_minus_sign(n as int);
    text::law_minus_sign(-n);
    assert(none + digits + none =~= digits);
    if n == 0 {
        assert(text::decimal(0) =~= seq!['0']);
        law_zero_is_read(none, none, none);
        assert(none + none + (seq!['0'] + none) =~= seq!['0']);
    } else if n < 0 {
        law_numbers_are_read(none, seq!['-'], none, digits, none, 10);
        assert(none + seq!['-'] + digits =~= seq!['-'] + digits);
    } else {
        law_numbers_are_read(none, none, none, digits, none, 10);
        assert(none + none + digits =~= digits);
    }
}

/// The white space beyond ASCII: the next line, the blanks of every width that Unicode knows, and
/// its line and paragraph separators.
pub proof fn law_wide_white_space(c: char)
    requires
        c as u32 >= 128,
    ensures
        is_white(c) <==> seq![
            '\u{85}',
            '\u{a0}',
            '\u{1680}',
            '\u{2000}',
            '\u{2001}',
            '\u{2002}',
            '\u{2003}',
            '\u{2004}',
            '\u{2005}',
            '\u{2006}',
            '\u{2007}',
            '\u{2008}',
            '\u{2009}',
            '\u{200a}',
            '\u{2028}',
            '\u{2029}',
            '\u{202f}',
            '\u{205f}',
            '\u{3000}',
        ].contains(c),
{
    let wide = seq![
        '\u{85}',
        '\u{a0}',
        '\u{1680}',
        '\u{2000}',
        '\u{2001}',
        '\u{2002}',
        '\u{2003}',
        '\u{2004}',
        '\u{2005}',
        '\u{2006}',
        '\u{2007}',
        '\u{2008}',
        '\u{2009}',
        '\u{200a}',
        '\u{2028}',
        '\u{2029}',
        '\u{202f}',
        '\u{205f}',
        '\u{3000}',
    ];
    let i: int = if c == '\u{85}' {
        0
    } else if c == '\u{a0}' {
        1
    } else if c == '\u{1680}' {
        2
    } else if c as u32 <= 0x200a {
        3 + (c as u32 - 0x2000)
    } else if c as u32 <= 0x2029 {
        14 + (c as u32 - 0x2028)
    } else if c == '\u{202f}' {
        16
    } else if c == '\u{205f}' {
        17
    } else {
        18
    };
    if is_white(c) {
        assert(wide[i] == c);
    }
}

} // verus!
