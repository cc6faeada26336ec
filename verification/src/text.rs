//! Text as sequences of characters, and the few ways in which the builtin composes it.

use vstd::prelude::*;

verus! {

/// The texts behind a list of string slices.
pub open spec fn views(list: Seq<&str>) -> Seq<Seq<char>> {
    Seq::new(list.len(), |i: int| list[i]@)
}

/// The decimal digit `d`.
pub open spec fn digit(d: nat) -> Seq<char> {
    seq![('0' as u32 + d) as char]
}

/// `n` in decimal, without leading zeros.
pub open spec fn decimal(n: nat) -> Seq<char>
    decreases n,
{
    if n < 10 {
        digit(n)
    } else {
        decimal(n / 10) + digit(n % 10)
    }
}

/// `n` in decimal, with a leading minus sign if it is negative.
pub open spec fn signed_decimal(n: int) -> Seq<char> {
    if n < 0 {
        "-"@ + decimal((-n) as nat)
    } else {
        decimal(n as nat)
    }
}

/// A run of `n` blanks.
pub open spec fn blanks(n: nat) -> Seq<char> {
    Seq::new(n, |i: int| ' ')
}

/// `s`, filled up on the right with blanks to at least `width` characters.
pub open spec fn padded(s: Seq<char>, width: nat) -> Seq<char> {
    if s.len() < width {
        s + blanks((width - s.len()) as nat)
    } else {
        s
    }
}

/// `s`, filled up with blanks to at least `width` characters: on the right if it is to stand at
/// the left, and else on the left.
pub open spec fn justified(s: Seq<char>, width: nat, left: bool) -> Seq<char> {
    if left || s.len() >= width {
        padded(s, width)
    } else {
        blanks((width - s.len()) as nat) + s
    }
}

/// Whether the two texts are the same.
pub fn same(a: &str, b: &str) -> (r: bool)
    ensures
        r == (a@ == b@),
{
    a.to_owned() == b.to_owned()
}

/// The decimal digit `d` as text.
fn digit_text(d: u128) -> (r: &'static str)
    requires
        d < 10,
    ensures
        r@ == digit(d as nat),
{
    proof {
        reveal_strlit("0");
        reveal_strlit("1");
        reveal_strlit("2");
        reveal_strlit("3");
        reveal_strlit("4");
        reveal_strlit("5");
        reveal_strlit("6");
        reveal_strlit("7");
        reveal_strlit("8");
        reveal_strlit("9");
    }
    if d == 0 {
        "0"
    } else if d == 1 {
        "1"
    } else if d == 2 {
        "2"
    } else if d == 3 {
        "3"
    } else if d == 4 {
        "4"
    } else if d == 5 {
        "5"
    } else if d == 6 {
        "6"
    } else if d == 7 {
        "7"
    } else if d == 8 {
        "8"
    } else {
        "9"
    }
}

/// Writes `n` in decimal.
pub fn decimal_text(n: u128) -> (r: String)
    ensures
        r@ == decimal(n as nat),
    decreases n,
{
    if n < 10 {
        digit_text(n).to_owned()
    } else {
        let mut text = decimal_text(n / 10);
        text.append(digit_text(n % 10));
        text
    }
}

/// Writes `n` in decimal, with a minus sign in front where it is negative.
pub fn signed_decimal_text(n: i32) -> (r: String)
    ensures
        r@ == signed_decimal(n as int),
{
    if n < 0 {
        let mut text = "-".to_owned();
        let magnitude: u128 = (-(n as i64)) as u128;
        text.append(decimal_text(magnitude).as_str());
        text
    } else {
        decimal_text(n as u128)
    }
}

/// Appends `n` blanks.
fn append_blanks(text: &mut String, n: u128)
    ensures
        final(text)@ == old(text)@ + blanks(n as nat),
{
    let mut i: u128 = 0;
    while i < n
        invariant
            i <= n,
            text@ == old(text)@ + blanks(i as nat),
        decreases n - i,
    {
        text.append(" ");
        proof {
            reveal_strlit(" ");
            assert(blanks(i as nat) + " "@ =~= blanks((i + 1) as nat));
            assert(text@ =~= old(text)@ + blanks((i + 1) as nat));
        }
        i = i + 1;
    }
}

/// Appends `s`, filled up with blanks to at least `width` characters.
pub fn append_justified(text: &mut String, s: &str, width: u128, left: bool)
    ensures
        final(text)@ == old(text)@ + justified(s@, width as nat, left),
{
    let len: u128 = s.unicode_len() as u128;
    if len < width && !left {
        append_blanks(text, width - len);
    }
    text.append(s);
    if len < width && left {
        append_blanks(text, width - len);
    }
    assert(text@ =~= old(text)@ + justified(s@, width as nat, left));
}

/// A number with one digit more reads as the number before it, and that digit.
pub proof fn law_decimal_digits(n: nat, d: nat)
    requires
        d < 10,
    ensures
        decimal(d) == seq![(0x30 + d) as char],
        n > 0 ==> decimal(n * 10 + d) == decimal(n).push((0x30 + d) as char),
{
    if n > 0 {
        assert((n * 10 + d) / 10 == n);
        assert((n * 10 + d) % 10 == d);
        assert(decimal(n * 10 + d) =~= decimal(n).push((0x30 + d) as char));
    }
}

/// A negative number reads as a minus sign and the number without it.
pub proof fn law_minus_sign(n: int)
    ensures
        n >= 0 ==> signed_decimal(n) == decimal(n as nat),
        n < 0 ==> signed_decimal(n) == seq!['-'] + signed_decimal(-n),
{
    reveal_strlit("-");
    assert("-"@ =~= seq!['-']);
}

/// Filling up adds blanks, on the side that is asked for, and no more than are needed.
pub proof fn law_filling_up(s: Seq<char>, width: nat, left: bool)
    ensures
        s.len() >= width ==> justified(s, width, left) == s && padded(s, width) == s,
        s.len() < width ==> {
            let filled = justified(s, width, left);
            &&& filled.len() == width
            &&& left ==> filled.take(s.len() as int) == s && forall|i: int|
                s.len() <= i < width ==> filled[i] == ' '
            &&& !left ==> filled.skip(width - s.len()) == s && forall|i: int|
                0 <= i < width - s.len() ==> filled[i] == ' '
        },
        padded(s, width) == justified(s, width, true),
{
    if s.len() < width {
        let filled = justified(s, width, left);
        if left {
            assert(filled.take(s.len() as int) =~= s);
        } else {
            assert(filled.skip(width - s.len()) =~= s);
        }
    }
}

} // verus!
