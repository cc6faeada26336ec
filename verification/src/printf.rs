//! Texts from formats, as `printf` makes them.
//!
//! A format is text in which directives stand for arguments: a percent sign, a dash if the
//! argument is to stand at the left of its column, the width of the column (one digit, or a star
//! if an argument of its own gives it), and `s`, `ls` or `d`. Two percent signs stand for one.

use vstd::prelude::*;

use crate::text;

verus! {

/// An argument of a format.
pub enum FormatArg<'a> {
    Text(&'a str),
    Int(i32),
    Count(u128),
}

/// What an argument is: a text or a number.
pub ghost enum Arg {
    Text(Seq<char>),
    Number(int),
}

impl<'a> View for FormatArg<'a> {
    type V = Arg;

    open spec fn view(&self) -> Arg {
        match *self {
            FormatArg::Text(s) => Arg::Text(s@),
            FormatArg::Int(n) => Arg::Number(n as int),
            FormatArg::Count(n) => Arg::Number(n as int),
        }
    }
}

/// The arguments behind a list of them.
pub open spec fn arg_views(list: Seq<FormatArg>) -> Seq<Arg> {
    Seq::new(list.len(), |i: int| list[i]@)
}

impl Arg {
    /// How the argument reads.
    pub open spec fn shown(self) -> Seq<char> {
        match self {
            Arg::Text(s) => s,
            Arg::Number(n) => text::signed_decimal(n),
        }
    }

    /// The width that the argument gives to a column.
    pub open spec fn width(self) -> nat {
        match self {
            Arg::Text(s) => 0,
            Arg::Number(n) => if n < 0 {
                (-n) as nat
            } else {
                n as nat
            },
        }
    }

    /// Whether the argument, as the width of a column, asks for the left: it does if it is
    /// negative.
    pub open spec fn asks_left(self) -> bool {
        self matches Arg::Number(n) && n < 0
    }
}

/// A directive: whether its argument stands at the left, whether an argument gives the width, the
/// width that it gives itself, and the number of its characters behind the percent sign.
pub ghost struct Directive {
    pub left: bool,
    pub star: bool,
    pub width: nat,
    pub len: int,
}

/// One if the character at `i` of `s` is `c`, and else zero.
pub open spec fn one_if(s: Seq<char>, i: int, c: char) -> int {
    if i < s.len() && s[i] == c {
        1
    } else {
        0
    }
}

/// The directive that begins behind the percent sign before `s`, if there is one.
pub open spec fn directive(s: Seq<char>) -> Option<Directive> {
    let flag = one_if(s, 0, '-');
    let star = one_if(s, flag, '*');
    let digit: int = if flag < s.len() && '1' <= s[flag] <= '9' {
        1
    } else {
        0
    };
    let size = flag + star + digit;
    let conversion = size + one_if(s, size, 'l');
    if conversion < s.len() && (s[conversion] == 's' || s[conversion] == 'd') {
        Some(
            Directive {
                left: flag == 1,
                star: star == 1,
                width: if digit == 1 {
                    (s[flag] as u32 - '0' as u32) as nat
                } else {
                    0
                },
                len: conversion + 1,
            },
        )
    } else {
        None
    }
}

/// The next argument; where there is none left, an empty text.
pub open spec fn next_arg(args: Seq<Arg>) -> Arg {
    if args.len() > 0 {
        args[0]
    } else {
        Arg::Text(seq![])
    }
}

/// The arguments after the next one.
pub open spec fn later_args(args: Seq<Arg>) -> Seq<Arg> {
    if args.len() > 0 {
        args.skip(1)
    } else {
        args
    }
}

/// What a directive puts in its place.
pub open spec fn filled(d: Directive, args: Seq<Arg>) -> Seq<char> {
    if d.star {
        text::justified(
            next_arg(later_args(args)).shown(),
            next_arg(args).width(),
            d.left || next_arg(args).asks_left(),
        )
    } else {
        text::justified(next_arg(args).shown(), d.width, d.left)
    }
}

/// The arguments that a directive leaves to those behind it.
pub open spec fn left_over(d: Directive, args: Seq<Arg>) -> Seq<Arg> {
    if d.star {
        later_args(later_args(args))
    } else {
        later_args(args)
    }
}

/// The text that a format makes of its arguments.
pub open spec fn formatted(fmt: Seq<char>, args: Seq<Arg>) -> Seq<char>
    decreases fmt.len(),
{
    if fmt.len() == 0 {
        seq![]
    } else if fmt[0] != '%' {
        seq![fmt[0]] + formatted(fmt.skip(1), args)
    } else if fmt.len() > 1 && fmt[1] == '%' {
        seq!['%'] + formatted(fmt.skip(2), args)
    } else {
        match directive(fmt.skip(1)) {
            Some(d) => filled(d, args) + formatted(fmt.skip(1 + d.len), left_over(d, args)),
            None => seq!['%'] + formatted(fmt.skip(1), args),
        }
    }
}

/// A format that ends a line makes a text that ends a line.
pub proof fn law_lines_stay_lines(fmt: Seq<char>, args: Seq<Arg>)
    requires
        fmt.len() > 0,
        fmt.last() == '\n',
    ensures
        formatted(fmt, args).len() > 0,
        formatted(fmt, args).last() == '\n',
    decreases fmt.len(),
{
    if fmt[0] != '%' {
        if fmt.len() > 1 {
            law_lines_stay_lines(fmt.skip(1), args);
        } else {
            assert(formatted(fmt.skip(1), args) =~= seq![]);
        }
    } else if fmt.len() > 1 && fmt[1] == '%' {
        law_lines_stay_lines(fmt.skip(2), args);
    } else {
        match directive(fmt.skip(1)) {
            Some(d) => {
                assert(fmt[d.len] == fmt.skip(1)[d.len - 1]);
                law_lines_stay_lines(fmt.skip(1 + d.len), left_over(d, args));
            },
            None => law_lines_stay_lines(fmt.skip(1), args),
        }
    }
}

/// Text without a percent sign stands for itself.
pub proof fn law_text_stands_for_itself(plain: Seq<char>, rest: Seq<char>, args: Seq<Arg>)
    requires
        !plain.contains('%'),
    ensures
        formatted(plain + rest, args) == plain + formatted(rest, args),
    decreases plain.len(),
{
    if plain.len() == 0 {
        assert(plain + rest =~= rest);
        assert(plain + formatted(rest, args) =~= formatted(rest, args));
    } else {
        let tail = plain.skip(1);
        assert(plain.contains(plain[0]));
        assert forall|c: char| tail.contains(c) implies plain.contains(c) by {
            let k = choose|k: int| 0 <= k < tail.len() && tail[k] == c;
            assert(plain[k + 1] == c);
        }
        law_text_stands_for_itself(tail, rest, args);
        assert((plain + rest).skip(1) =~= tail + rest);
        assert(plain + formatted(rest, args) =~= seq![plain[0]] + (tail + formatted(rest, args)));
    }
}

/// A bare directive stands for the next argument as it reads.
pub proof fn law_directive_stands_for_argument(fmt: Seq<char>, rest: Seq<char>, args: Seq<Arg>)
    requires
        fmt == "%s"@ || fmt == "%ls"@ || fmt == "%d"@,
    ensures
        formatted(fmt + rest, args) == next_arg(args).shown() + formatted(rest, later_args(args)),
{
    reveal_strlit("%s");
    reveal_strlit("%ls");
    reveal_strlit("%d");
    let whole = fmt + rest;
    let s = whole.skip(1);
    assert(s.len() >= 1 && s[0] == fmt[1]);
    assert(fmt.len() == 3 ==> s[1] == fmt[2]);
    let d = Directive { left: false, star: false, width: 0, len: fmt.len() - 1 };
    assert(directive(s) == Some(d));
    assert(whole.skip(1 + d.len) =~= rest);
    assert(filled(d, args) =~= next_arg(args).shown());
}

/// One if the character at `i` of `s` is `c`, and else zero.
fn count_if(s: &str, i: usize, c: char) -> (r: usize)
    ensures
        r == one_if(s@, i as int, c),
        r <= 1,
        i + r <= s@.len() || r == 0,
{
    if i < s.unicode_len() && s.get_char(i) == c {
        1
    } else {
        0
    }
}

/// A directive that was found, and the place behind it.
struct Found {
    left: bool,
    star: bool,
    width: u128,
    end: usize,
}

/// Reads the directive that begins at the character at `start`, if there is one.
fn read_directive(fmt: &str, start: usize) -> (r: Option<Found>)
    requires
        start <= fmt@.len(),
    ensures
        match directive(fmt@.skip(start as int)) {
            Some(d) => r matches Some(found) && found.left == d.left && found.star == d.star
                && found.width == d.width && found.end == start + d.len && found.end
                <= fmt@.len(),
            None => r is None,
        },
{
    let ghost s = fmt@.skip(start as int);
    let len: usize = fmt.unicode_len();
    let flag: usize = count_if(fmt, start, '-');
    assert(flag == one_if(s, 0, '-'));
    let star: usize = count_if(fmt, start + flag, '*');
    assert(star == one_if(s, flag as int, '*'));
    let mut digit: usize = 0;
    let mut width: u128 = 0;
    if start + flag < len {
        let w = fmt.get_char(start + flag);
        if '1' <= w && w <= '9' {
            digit = 1;
            width = (w as u32 - '0' as u32) as u128;
        }
    }
    let size: usize = start + flag + star + digit;
    let conversion: usize = size + count_if(fmt, size, 'l');
    assert(conversion - size == one_if(s, size - start, 'l'));
    if conversion < len {
        let c = fmt.get_char(conversion);
        if c == 's' || c == 'd' {
            return Some(Found { left: flag == 1, star: star == 1, width, end: conversion + 1 });
        }
    }
    None
}

/// Appends the next argument, from the one at `k` on, in a column of the given width.
fn append_arg(out: &mut String, args: &Vec<FormatArg>, k: usize, width: u128, left: bool)
    ensures
        final(out)@ == old(out)@ + text::justified(
            next_arg(args_from(args@, k as int)).shown(),
            width as nat,
            left,
        ),
{
    if k < args.len() {
        match &args[k] {
            FormatArg::Text(s) => text::append_justified(out, s, width, left),
            FormatArg::Int(n) => {
                let shown = text::signed_decimal_text(*n);
                text::append_justified(out, shown.as_str(), width, left)
            },
            FormatArg::Count(n) => {
                let shown = text::decimal_text(*n);
                text::append_justified(out, shown.as_str(), width, left)
            },
        }
    } else {
        proof {
            reveal_strlit("");
            assert(""@ =~= seq![]);
        }
        text::append_justified(out, "", width, left)
    }
}

/// The arguments from the one at `k` on; none if there are not so many.
spec fn args_from(args: Seq<FormatArg>, k: int) -> Seq<Arg> {
    if k <= args.len() {
        arg_views(args).skip(k)
    } else {
        seq![]
    }
}

/// The width that the argument at `k` gives to a column, and whether it asks for the left.
fn column(args: &Vec<FormatArg>, k: usize) -> (r: (u128, bool))
    ensures
        r.0 == next_arg(args_from(args@, k as int)).width(),
        r.1 == next_arg(args_from(args@, k as int)).asks_left(),
{
    if k < args.len() {
        match &args[k] {
            FormatArg::Text(_) => (0, false),
            FormatArg::Int(n) => {
                if *n < 0 {
                    ((-(*n as i64)) as u128, true)
                } else {
                    (*n as u128, false)
                }
            },
            FormatArg::Count(n) => (*n, false),
        }
    } else {
        (0, false)
    }
}

/// The place behind one more argument.
fn step(args: &Vec<FormatArg>, k: usize) -> (r: usize)
    requires
        k <= args@.len(),
    ensures
        r <= args@.len(),
        args_from(args@, r as int) == later_args(args_from(args@, k as int)),
{
    if k < args.len() {
        assert(arg_views(args@).skip(k as int).skip(1) =~= arg_views(args@).skip(k + 1));
        k + 1
    } else {
        k
    }
}

/// Makes a text of a format and its arguments.
pub fn sprintf(fmt: &str, args: &Vec<FormatArg>) -> (r: String)
    ensures
        r@ == formatted(fmt@, arg_views(args@)),
{
    let len: usize = fmt.unicode_len();
    let mut out = String::new();
    let mut i: usize = 0;
    let mut k: usize = 0;
    proof {
        assert(fmt@.skip(0) =~= fmt@);
        assert(arg_views(args@).skip(0) =~= arg_views(args@));
        assert(out@ + formatted(fmt@, arg_views(args@)) =~= formatted(fmt@, arg_views(args@)));
    }
    while i < len
        invariant
            i <= len,
            len == fmt@.len(),
            k <= args@.len(),
            out@ + formatted(fmt@.skip(i as int), args_from(args@, k as int)) == formatted(
                fmt@,
                arg_views(args@),
            ),
        decreases len - i,
    {
        let ghost before = out@;
        let ghost here = fmt@.skip(i as int);
        let ghost rest = args_from(args@, k as int);
        let ghost behind = here.skip(1);
        let c = fmt.get_char(i);
        assert(behind =~= fmt@.skip(i + 1));
        if c != '%' {
            out.append(fmt.substring_char(i, i + 1));
            i = i + 1;
            assert(out@ =~= before + seq![c]);
            assert(out@ + formatted(fmt@.skip(i as int), rest) =~= before + formatted(here, rest));
            continue ;
        }
        if len - i > 1 && fmt.get_char(i + 1) == '%' {
            out.append(fmt.substring_char(i, i + 1));
            i = i + 2;
            assert(out@ =~= before + seq!['%']);
            assert(here.skip(2) =~= fmt@.skip(i as int));
            assert(out@ + formatted(fmt@.skip(i as int), rest) =~= before + formatted(here, rest));
            continue ;
        }
        match read_directive(fmt, i + 1) {
            Some(found) => {
                let ghost d = directive(behind)->0;
                let mut width: u128 = found.width;
                let mut left = found.left;
                if found.star {
                    let (given, asks_left) = column(args, k);
                    width = given;
                    left = left || asks_left;
                    k = step(args, k);
                }
                append_arg(&mut out, args, k, width, left);
                k = step(args, k);
                i = found.end;
                assert(here.skip(1 + d.len) =~= fmt@.skip(i as int));
                assert(out@ == before + filled(d, rest));
                assert(out@ + formatted(fmt@.skip(i as int), args_from(args@, k as int))
                    =~= before + formatted(here, rest));
            },
            None => {
                out.append(fmt.substring_char(i, i + 1));
                i = i + 1;
                assert(out@ =~= before + seq!['%']);
                assert(out@ + formatted(fmt@.skip(i as int), rest) =~= before + formatted(
                    here,
                    rest,
                ));
            },
        }
    }
    assert(fmt@.skip(i as int).len() == 0);
    assert(out@ + formatted(fmt@.skip(i as int), args_from(args@, k as int)) =~= out@);
    out
}

/// Two percent signs stand for one.
pub proof fn law_percent_sign(rest: Seq<char>, args: Seq<Arg>)
    ensures
        formatted(seq!['%', '%'] + rest, args) == seq!['%'] + formatted(rest, args),
{
    assert((seq!['%', '%'] + rest).skip(2) =~= rest);
}

/// A directive with a flag, a width and a size puts its argument into a column: the flag asks for
/// the left, and a star takes the width from an argument of its own, where a negative one asks
/// for the left too.
pub proof fn law_columns(
    flag: Seq<char>,
    width: Seq<char>,
    size: Seq<char>,
    conversion: char,
    rest: Seq<char>,
    args: Seq<Arg>,
)
    requires
        flag =~= seq![] || flag =~= seq!['-'],
        width =~= seq![] || width =~= seq!['*'] || (width.len() == 1 && '1' <= width[0] <= '9'),
        size =~= seq![] || size =~= seq!['l'],
        conversion == 's' || conversion == 'd',
        args.len() >= 2,
    ensures
        ({
            let left = flag.len() == 1;
            let made = formatted(seq!['%'] + flag + width + size + seq![conversion] + rest, args);
            if width =~= seq!['*'] {
                made == match args[0] {
                    Arg::Number(n) => text::justified(
                        args[1].shown(),
                        if n < 0 {
                            (-n) as nat
                        } else {
                            n as nat
                        },
                        left || n < 0,
                    ),
                    Arg::Text(_) => args[1].shown(),
                } + formatted(rest, args.skip(2))
            } else if width.len() == 1 {
                made == text::justified(
                    args[0].shown(),
                    (width[0] as u32 - 0x30) as nat,
                    left,
                ) + formatted(rest, args.skip(1))
            } else {
                made == args[0].shown() + formatted(rest, args.skip(1))
            }
        }),
{
    let whole = seq!['%'] + flag + width + size + seq![conversion] + rest;
    let s = whole.skip(1);
    let f = flag.len() as int;
    let w = width.len() as int;
    let z = size.len() as int;
    assert(f == 1 ==> s[0] == flag[0]);
    assert(w == 1 ==> s[f] == width[0]);
    assert(z == 1 ==> s[f + w] == size[0]);
    assert(s[f + w + z] == conversion);
    assert(one_if(s, 0, '-') == f);
    let d = Directive {
        left: f == 1,
        star: width =~= seq!['*'],
        width: if w == 1 && width[0] != '*' {
            (width[0] as u32 - 0x30) as nat
        } else {
            0
        },
        len: f + w + z + 1,
    };
    assert(directive(s) == Some(d));
    assert(whole[1] != '%');
    assert(whole.skip(1 + d.len) =~= rest);
    assert(args.skip(1).skip(1) =~= args.skip(2));
    assert(formatted(whole, args) == filled(d, args) + formatted(rest, left_over(d, args)));
}

/// How arguments read: texts as they are, numbers in decimal.
pub proof fn law_arguments_read(s: Seq<char>, n: int)
    ensures
        Arg::Text(s).shown() == s,
        Arg::Number(n).shown() == text::signed_decimal(n),
{
}

/// Texts, and between each and the next one of `between`.
pub open spec fn woven(pieces: Seq<Seq<char>>, between: Seq<Seq<char>>) -> Seq<char>
    decreases between.len(),
{
    if between.len() == 0 {
        pieces[0]
    } else {
        pieces[0] + between[0] + woven(pieces.skip(1), between.skip(1))
    }
}

/// How the arguments read, one by one.
pub open spec fn all_shown(args: Seq<Arg>) -> Seq<Seq<char>> {
    Seq::new(args.len(), |i: int| args[i].shown())
}

/// A format of texts with bare directives between them makes the same texts with the arguments
/// between them.
pub proof fn law_directives_give_way_to_arguments(
    pieces: Seq<Seq<char>>,
    directives: Seq<Seq<char>>,
    args: Seq<Arg>,
)
    requires
        pieces.len() == directives.len() + 1,
        args.len() == directives.len(),
        forall|i: int| 0 <= i < pieces.len() ==> !(#[trigger] pieces[i]).contains('%'),
        forall|i: int|
            0 <= i < directives.len() ==> (#[trigger] directives[i]) == "%s"@ || directives[i]
                == "%ls"@ || directives[i] == "%d"@,
    ensures
        formatted(woven(pieces, directives), args) == woven(pieces, all_shown(args)),
    decreases directives.len(),
{
    let none: Seq<char> = seq![];
    if directives.len() == 0 {
        law_text_stands_for_itself(pieces[0], none, args);
        assert(pieces[0] + none =~= pieces[0]);
        assert(pieces[0] + formatted(none, args) =~= pieces[0]);
    } else {
        let rest = woven(pieces.skip(1), directives.skip(1));
        assert forall|i: int| 0 <= i < pieces.skip(1).len() implies !(#[trigger] pieces.skip(
            1,
        )[i]).contains('%') by {
            assert(!pieces[i + 1].contains('%'));
        }
        assert forall|i: int| 0 <= i < directives.skip(1).len() implies (
        #[trigger] directives.skip(1)[i]) == "%s"@ || directives.skip(1)[i] == "%ls"@
            || directives.skip(1)[i] == "%d"@ by {
            assert(directives[i + 1] == directives.skip(1)[i]);
        }
        law_directives_give_way_to_arguments(pieces.skip(1), directives.skip(1), args.skip(1));
        assert(all_shown(args).skip(1) =~= all_shown(args.skip(1)));
        law_directive_stands_for_argument(directives[0], rest, args);
        law_text_stands_for_itself(pieces[0], directives[0] + rest, args);
        assert(pieces[0] + directives[0] + rest =~= pieces[0] + (directives[0] + rest));
        assert(formatted(woven(pieces, directives), args) =~= woven(pieces, all_shown(args)));
    }
}

/// A directive that there is no argument left for makes nothing.
pub proof fn law_missing_arguments_are_empty(s: Seq<char>)
    ensures
        formatted("%s"@ + s, seq![]) == formatted(s, seq![]),
        formatted("%ls"@ + s, seq![]) == formatted(s, seq![]),
        formatted("%d"@ + s, seq![]) == formatted(s, seq![]),
{
    let none: Seq<Arg> = seq![];
    reveal_strlit("%s");
    reveal_strlit("%ls");
    reveal_strlit("%d");
    let one = "%s"@ + s;
    let two = "%ls"@ + s;
    let three = "%d"@ + s;
    assert("%s"@[1] == 's' && "%ls"@[1] == 'l' && "%ls"@[2] == 's' && "%d"@[1] == 'd');
    assert(one.skip(1)[0] == 's');
    assert(two.skip(1)[0] == 'l' && two.skip(1)[1] == 's');
    assert(three.skip(1)[0] == 'd');
    assert(one.skip(2) =~= s);
    assert(two.skip(3) =~= s);
    assert(three.skip(2) =~= s);
    let nothing: Seq<char> = seq![];
    assert(text::justified(nothing, 0, false) =~= nothing);
    assert(nothing + formatted(s, none) =~= formatted(s, none));
}

/// A percent sign that begins no directive stands for itself.
pub proof fn law_lone_percent_signs_stay(s: Seq<char>, args: Seq<Arg>)
    requires
        s.len() == 0 || !(s[0] == '%' || s[0] == '-' || s[0] == '*' || '1' <= s[0] <= '9' || s[0]
            == 'l' || s[0] == 's' || s[0] == 'd'),
    ensures
        formatted(seq!['%'] + s, args) == seq!['%'] + formatted(s, args),
{
    let fmt = seq!['%'] + s;
    assert(fmt.skip(1) =~= s);
}

} // verus!
