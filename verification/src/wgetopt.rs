//! Options on a command line, read as `getopt_long` reads them.
//!
//! A word that begins with a dash and is not a dash alone is an option word: `--name`,
//! `--name=argument`, or a dash and a cluster of option letters. A long name may be shortened as
//! long as it stays unmistakable. Options and operands may come in any order; the words are
//! rearranged so that the operands end up last. The word `--` ends the options.

use vstd::prelude::*;

use crate::text;
use crate::text::same;

verus! {

/// Whether an option takes an argument.
#[derive(Clone, Copy, Debug, PartialEq, Eq, Structural)]
pub enum WOptionArgument {
    NoArgument,
    RequiredArgument,
}

/// A long option: its name, whether it takes an argument, and the character that stands for it.
#[derive(Clone, Copy, Debug)]
pub struct WOption {
    pub name: &'static str,
    pub has_arg: WOptionArgument,
    pub val: char,
}

/// What there is to know of a long option.
pub ghost struct LongOption {
    pub name: Seq<char>,
    pub has_arg: WOptionArgument,
    pub val: char,
}

impl View for WOption {
    type V = LongOption;

    open spec fn view(&self) -> LongOption {
        LongOption { name: self.name@, has_arg: self.has_arg, val: self.val }
    }
}

/// The long options behind a list of them.
pub open spec fn long_views(list: Seq<WOption>) -> Seq<LongOption> {
    Seq::new(list.len(), |i: int| list[i]@)
}

/// Describes a long option.
pub fn wopt(name: &'static str, has_arg: WOptionArgument, val: char) -> (r: WOption)
    ensures
        r@ == (LongOption { name: name@, has_arg, val }),
{
    WOption { name, has_arg, val }
}

/// The options that a command line may hold. In `short` a letter that is followed by a colon
/// takes an argument. A colon at its beginning asks that a missing argument be told apart from
/// an unknown option.
pub ghost struct OptionTable {
    pub short: Seq<char>,
    pub long: Seq<LongOption>,
}

/// How far the words of a command line have been read.
///
/// The words before `first` have been read, those from `first` to `last` are operands that have
/// been passed, those from `last` to `woptind` have been read since. Within a cluster of letters
/// `pos` is the place of the next letter in the word at `woptind`; between words it is zero.
pub ghost struct Scan {
    pub argv: Seq<Seq<char>>,
    pub first: int,
    pub last: int,
    pub woptind: int,
    pub pos: int,
}

/// What comes next on a command line.
pub ghost enum Step {
    /// An option, by the character that stands for it, and its argument.
    Option { val: char, arg: Option<Seq<char>>, after: Scan },
    /// A word that cannot be read: it holds an unknown option (`?`), or an option that lacks its
    /// argument (`:`). It is the one before `after.woptind`.
    Rejected { val: char, after: Scan },
    /// There are no more options. The words stand as in `argv`, with the operands from
    /// `optind` on.
    End { argv: Seq<Seq<char>>, optind: int },
}

impl Scan {
    /// Nothing has been read but the name of the command.
    pub open spec fn start(argv: Seq<Seq<char>>) -> Scan {
        Scan { argv, first: 1, last: 1, woptind: 1, pos: 0 }
    }

    pub open spec fn valid(self) -> bool {
        &&& 1 <= self.first <= self.last <= self.woptind <= self.argv.len()
        &&& self.pos >= 0
        &&& self.pos > 0 ==> self.last == self.woptind < self.argv.len() && self.pos
            < self.word().len()
    }

    /// The word that is being read.
    pub open spec fn word(self) -> Seq<char> {
        self.argv[self.woptind]
    }

    /// Moves the words that were read since the last operand before the operands.
    pub open spec fn settled(self) -> Scan {
        Scan {
            argv: self.argv.take(self.first) + self.argv.subrange(self.last, self.woptind)
                + self.argv.subrange(self.first, self.last) + self.argv.skip(self.woptind),
            first: self.first + (self.woptind - self.last),
            last: self.woptind,
            ..self
        }
    }

    /// Passes the operands before the next option word.
    pub open spec fn at_option(self) -> Scan {
        let i = next_option_word(self.argv, self.woptind);
        Scan { last: i, woptind: i, ..self }
    }

    /// Passes `n` words.
    pub open spec fn past(self, n: int) -> Scan {
        Scan { woptind: self.woptind + n, pos: 0, ..self }
    }
}

/// Whether a word holds options.
pub open spec fn is_option_word(word: Seq<char>) -> bool {
    word.len() > 1 && word[0] == '-'
}

/// The place of the first option word from the one at `i` on; behind the last word if there is
/// none.
pub open spec fn next_option_word(argv: Seq<Seq<char>>, i: int) -> int
    decreases argv.len() - i,
{
    if i < argv.len() && !is_option_word(argv[i]) {
        next_option_word(argv, i + 1)
    } else {
        i
    }
}

/// Whether the first place of `c` in `short` is the one at `i`.
pub open spec fn is_letter_at(short: Seq<char>, c: char, i: int) -> bool {
    &&& 0 <= i < short.len()
    &&& short[i] == c
    &&& forall|j: int| 0 <= j < i ==> short[j] != c
}

/// Whether the option letter `c` takes an argument; `None` if `c` is no option letter.
pub open spec fn letter(short: Seq<char>, c: char) -> Option<WOptionArgument> {
    if c == ':' || !short.contains(c) {
        None
    } else {
        let i = choose|i: int| is_letter_at(short, c, i);
        if i + 1 < short.len() && short[i + 1] == ':' {
            Some(WOptionArgument::RequiredArgument)
        } else {
            Some(WOptionArgument::NoArgument)
        }
    }
}

/// The character by which a missing argument is announced.
pub open spec fn missing_val(short: Seq<char>) -> char {
    if short.len() > 0 && short[0] == ':' {
        ':'
    } else {
        '?'
    }
}

/// The number of characters of `s` before its first equals sign; all of them if it has none.
pub open spec fn before_equals(s: Seq<char>) -> int
    decreases s.len(),
{
    if s.len() > 0 && s[0] != '=' {
        1 + before_equals(s.skip(1))
    } else {
        0
    }
}

/// Whether the long option at `i` is called exactly `name`, and none before it is.
pub open spec fn is_exact(long: Seq<LongOption>, name: Seq<char>, i: int) -> bool {
    &&& 0 <= i < long.len()
    &&& long[i].name == name
    &&& forall|j: int| 0 <= j < i ==> (#[trigger] long[j]).name != name
}

/// Whether `name` is a beginning of the name of the long option at `i`.
pub open spec fn abbreviates(long: Seq<LongOption>, name: Seq<char>, i: int) -> bool {
    0 <= i < long.len() && name.is_prefix_of(long[i].name)
}

/// Whether `name` is a beginning of the name of the long option at `i`, and of no other.
pub open spec fn is_only(long: Seq<LongOption>, name: Seq<char>, i: int) -> bool {
    &&& abbreviates(long, name, i)
    &&& forall|j: int| abbreviates(long, name, j) ==> i == j
}

/// The long option that `name` means: the one of that name, or else the only one whose name
/// begins so.
pub open spec fn long_option(long: Seq<LongOption>, name: Seq<char>) -> Option<LongOption> {
    if exists|i: int| is_exact(long, name, i) {
        Some(long[choose|i: int| is_exact(long, name, i)])
    } else if exists|i: int| is_only(long, name, i) {
        Some(long[choose|i: int| is_only(long, name, i)])
    } else {
        None
    }
}

/// Reads the letter at `scan.pos` of the word at `scan.woptind`.
pub open spec fn letter_step(table: OptionTable, scan: Scan) -> Step {
    let word = scan.word();
    let c = word[scan.pos];
    match letter(table.short, c) {
        None => Step::Rejected { val: '?', after: scan.past(1) },
        Some(WOptionArgument::NoArgument) => Step::Option {
            val: c,
            arg: None,
            after: if scan.pos + 1 < word.len() {
                Scan { pos: scan.pos + 1, ..scan }
            } else {
                scan.past(1)
            },
        },
        Some(WOptionArgument::RequiredArgument) => if scan.pos + 1 < word.len() {
            Step::Option { val: c, arg: Some(word.skip(scan.pos + 1)), after: scan.past(1) }
        } else if scan.woptind + 1 < scan.argv.len() {
            Step::Option { val: c, arg: Some(scan.argv[scan.woptind + 1]), after: scan.past(2) }
        } else {
            Step::Rejected { val: missing_val(table.short), after: scan.past(1) }
        },
    }
}

/// Reads the word at `scan.woptind`, which begins with two dashes.
pub open spec fn long_step(table: OptionTable, scan: Scan) -> Step {
    let text = scan.word().skip(2);
    let end = before_equals(text);
    match long_option(table.long, text.take(end)) {
        None => Step::Rejected { val: '?', after: scan.past(1) },
        Some(option) => if end < text.len() {
            if option.has_arg == WOptionArgument::RequiredArgument {
                Step::Option {
                    val: option.val,
                    arg: Some(text.skip(end + 1)),
                    after: scan.past(1),
                }
            } else {
                Step::Rejected { val: '?', after: scan.past(1) }
            }
        } else if option.has_arg == WOptionArgument::NoArgument {
            Step::Option { val: option.val, arg: None, after: scan.past(1) }
        } else if scan.woptind + 1 < scan.argv.len() {
            Step::Option {
                val: option.val,
                arg: Some(scan.argv[scan.woptind + 1]),
                after: scan.past(2),
            }
        } else {
            Step::Rejected { val: missing_val(table.short), after: scan.past(1) }
        },
    }
}

/// What comes next on the command line.
pub open spec fn next(table: OptionTable, scan: Scan) -> Step {
    if scan.pos > 0 {
        letter_step(table, scan)
    } else {
        let here = scan.settled().at_option();
        if here.woptind == here.argv.len() {
            Step::End { argv: here.argv, optind: here.first }
        } else if here.word() == "--"@ {
            let passed = here.past(1).settled();
            Step::End { argv: passed.argv, optind: passed.first }
        } else if here.word()[1] == '-' {
            long_step(table, here)
        } else {
            letter_step(table, Scan { pos: 1, ..here })
        }
    }
}

/// The argument behind an optional string slice.
pub open spec fn arg_view(arg: Option<&str>) -> Option<Seq<char>> {
    match arg {
        Some(s) => Some(s@),
        None => None,
    }
}

/// There is a first place of every character that occurs.
pub proof fn lemma_letter_at(short: Seq<char>, c: char, i: int)
    requires
        0 <= i < short.len(),
        short[i] == c,
    ensures
        exists|k: int| is_letter_at(short, c, k),
    decreases i,
{
    if exists|j: int| 0 <= j < i && short[j] == c {
        let j = choose|j: int| 0 <= j < i && short[j] == c;
        lemma_letter_at(short, c, j);
    } else {
        assert(is_letter_at(short, c, i));
    }
}

/// Whether the option letter `c` takes an argument; `None` if `c` is no option letter.
fn find_letter(short: &str, c: char) -> (r: Option<WOptionArgument>)
    ensures
        r == letter(short@, c),
{
    if c == ':' {
        return None;
    }
    let len: usize = short.unicode_len();
    let mut i: usize = 0;
    while i < len
        invariant
            i <= len,
            len == short@.len(),
            c != ':',
            forall|j: int| 0 <= j < i ==> short@[j] != c,
        decreases len - i,
    {
        if short.get_char(i) == c {
            proof {
                assert(is_letter_at(short@, c, i as int));
                let k = choose|k: int| is_letter_at(short@, c, k);
                assert(k == i);
            }
            if len - i > 1 && short.get_char(i + 1) == ':' {
                return Some(WOptionArgument::RequiredArgument);
            }
            return Some(WOptionArgument::NoArgument);
        }
        i = i + 1;
    }
    None
}

/// A text without an equals sign is all name.
pub proof fn lemma_no_equals(s: Seq<char>)
    requires
        !s.contains('='),
    ensures
        before_equals(s) == s.len(),
    decreases s.len(),
{
    if s.len() > 0 {
        assert(s.contains(s[0]));
        assert forall|c: char| s.skip(1).contains(c) implies s.contains(c) by {
            let k = choose|k: int| 0 <= k < s.skip(1).len() && s.skip(1)[k] == c;
            assert(s[k + 1] == c);
        }
        lemma_no_equals(s.skip(1));
    }
}

/// The number of characters of `s` before its first equals sign.
fn find_equals(s: &str) -> (end: usize)
    ensures
        end == before_equals(s@),
        end <= s@.len(),
{
    let len: usize = s.unicode_len();
    let mut end: usize = 0;
    assert(s@.skip(0) =~= s@);
    while end < len && s.get_char(end) != '='
        invariant
            end <= len,
            len == s@.len(),
            end + before_equals(s@.skip(end as int)) == before_equals(s@),
        decreases len - end,
    {
        assert(s@.skip(end as int).skip(1) =~= s@.skip(end + 1));
        end = end + 1;
    }
    end
}

/// Whether `name` begins with `prefix`.
fn starts_with(name: &str, prefix: &str) -> (r: bool)
    ensures
        r == prefix@.is_prefix_of(name@),
{
    let n: usize = prefix.unicode_len();
    if name.unicode_len() < n {
        return false;
    }
    same(name.substring_char(0, n), prefix)
}

/// The long option that `name` means.
fn find_long_option(longopts: &Vec<WOption>, name: &str) -> (r: Option<WOption>)
    ensures
        match r {
            Some(option) => long_option(long_views(longopts@), name@) == Some(option@),
            None => long_option(long_views(longopts@), name@) is None,
        },
{
    let ghost long = long_views(longopts@);
    let mut found: Option<usize> = None;
    let mut ambiguous = false;
    let mut i: usize = 0;
    while i < longopts.len()
        invariant
            i <= longopts@.len(),
            long == long_views(longopts@),
            forall|j: int| 0 <= j < i ==> (#[trigger] long[j]).name != name@,
            match found {
                None => !ambiguous && forall|j: int| 0 <= j < i ==> !abbreviates(long, name@, j),
                Some(k) => {
                    &&& k < i
                    &&& abbreviates(long, name@, k as int)
                    &&& ambiguous <==> exists|j: int|
                        0 <= j < i && j != k && abbreviates(long, name@, j)
                },
            },
        decreases longopts@.len() - i,
    {
        let option = longopts[i];
        assert(long[i as int] == option@);
        if starts_with(option.name, name) {
            assert(abbreviates(long, name@, i as int));
            if same(option.name, name) {
                proof {
                    assert(is_exact(long, name@, i as int));
                    let k = choose|k: int| is_exact(long, name@, k);
                    assert(k == i);
                }
                return Some(option);
            }
            if found.is_none() {
                found = Some(i);
            } else {
                ambiguous = true;
            }
        }
        i = i + 1;
    }
    assert(forall|j: int| !is_exact(long, name@, j));
    match found {
        Some(k) => {
            if ambiguous {
                assert(forall|j: int| !is_only(long, name@, j));
                None
            } else {
                proof {
                    assert(is_only(long, name@, k as int));
                    let j = choose|j: int| is_only(long, name@, j);
                    assert(j == k);
                }
                Some(longopts[k])
            }
        },
        None => None,
    }
}

/// The next option word lies at or behind the place where the search starts, and every word
/// passed is an operand.
proof fn lemma_next_option_word(argv: Seq<Seq<char>>, i: int)
    requires
        0 <= i <= argv.len(),
    ensures
        i <= next_option_word(argv, i) <= argv.len(),
        next_option_word(argv, i) < argv.len() ==> is_option_word(
            argv[next_option_word(argv, i)],
        ),
        forall|j: int| i <= j < next_option_word(argv, i) ==> !is_option_word(#[trigger] argv[j]),
    decreases argv.len() - i,
{
    if i < argv.len() && !is_option_word(argv[i]) {
        lemma_next_option_word(argv, i + 1);
    }
}

/// Moving words read before the operands keeps the words to come, and the name of the command.
proof fn lemma_settled(scan: Scan)
    requires
        scan.valid(),
        scan.pos == 0,
    ensures
        scan.settled().valid(),
        scan.settled().argv.len() == scan.argv.len(),
        scan.settled().argv[0] == scan.argv[0],
        forall|i: int|
            scan.woptind <= i < scan.argv.len() ==> #[trigger] scan.settled().argv[i]
                == scan.argv[i],
{
}

/// Every step leads on: after an option there are fewer words or letters left to read. The
/// number of words and the name of the command stay.
pub proof fn law_reading_leads_on(table: OptionTable, scan: Scan)
    requires
        scan.valid(),
    ensures
        match next(table, scan) {
            Step::Option { val, arg, after } => {
                &&& after.valid()
                &&& after.argv.len() == scan.argv.len()
                &&& after.argv[0] == scan.argv[0]
                &&& after.woptind > scan.woptind || (after.woptind == scan.woptind && after.pos
                    > scan.pos && after.word() == scan.word())
            },
            Step::Rejected { val, after } => {
                &&& after.valid()
                &&& after.argv.len() == scan.argv.len()
                &&& after.argv[0] == scan.argv[0]
                &&& after.woptind > scan.woptind
            },
            Step::End { argv, optind } => {
                &&& argv.len() == scan.argv.len()
                &&& argv[0] == scan.argv[0]
                &&& 1 <= optind <= argv.len()
            },
        },
{
    if scan.pos == 0 {
        lemma_settled(scan);
        lemma_next_option_word(scan.settled().argv, scan.woptind);
        let here = scan.settled().at_option();
        if here.woptind < here.argv.len() {
            lemma_settled(here.past(1));
        }
    }
}

/// A step moves words, but neither adds nor drops nor changes one.
pub proof fn law_words_are_only_moved(table: OptionTable, scan: Scan)
    requires
        scan.valid(),
    ensures
        match next(table, scan) {
            Step::Option { val, arg, after } => after.argv.to_multiset()
                == scan.argv.to_multiset(),
            Step::Rejected { val, after } => after.argv.to_multiset() == scan.argv.to_multiset(),
            Step::End { argv, optind } => argv.to_multiset() == scan.argv.to_multiset(),
        },
{
    if scan.pos == 0 {
        lemma_settled(scan);
        lemma_settled_moves(scan);
        lemma_next_option_word(scan.settled().argv, scan.woptind);
        let here = scan.settled().at_option();
        if here.woptind < here.argv.len() {
            lemma_settled_moves(here.past(1));
        }
    }
}

/// Moving words read before the operands neither adds nor drops a word.
proof fn lemma_settled_moves(scan: Scan)
    requires
        scan.valid(),
        scan.pos == 0,
    ensures
        scan.settled().argv.to_multiset() == scan.argv.to_multiset(),
{
    broadcast use vstd::seq_lib::group_to_multiset_ensures;

    let argv = scan.argv;
    let head = argv.take(scan.first);
    let operands = argv.subrange(scan.first, scan.last);
    let read = argv.subrange(scan.last, scan.woptind);
    let rest = argv.skip(scan.woptind);
    assert(argv =~= head + operands + read + rest);
    vstd::seq_lib::lemma_multiset_commutative(head + operands + read, rest);
    vstd::seq_lib::lemma_multiset_commutative(head + operands, read);
    vstd::seq_lib::lemma_multiset_commutative(head, operands);
    vstd::seq_lib::lemma_multiset_commutative(head + read + operands, rest);
    vstd::seq_lib::lemma_multiset_commutative(head + read, operands);
    vstd::seq_lib::lemma_multiset_commutative(head, read);
    assert(scan.settled().argv.to_multiset() =~= argv.to_multiset());
}

/// Moves the words from `last` to `end` before those from `first` to `last`.
fn exchange<'a>(argv: &mut Vec<&'a str>, first: usize, last: usize, end: usize)
    requires
        first <= last <= end <= old(argv)@.len(),
    ensures
        final(argv)@ == old(argv)@.take(first as int) + old(argv)@.subrange(
            last as int,
            end as int,
        ) + old(argv)@.subrange(first as int, last as int) + old(argv)@.skip(end as int),
{
    let ghost words = argv@;
    let mut i: usize = last;
    assert(argv@ =~= words.take(first as int) + words.subrange(last as int, i as int)
        + words.subrange(first as int, last as int) + words.skip(i as int));
    while i < end
        invariant
            first <= last <= i <= end <= words.len(),
            argv@ == words.take(first as int) + words.subrange(last as int, i as int)
                + words.subrange(first as int, last as int) + words.skip(i as int),
        decreases end - i,
    {
        let word = argv.remove(i);
        argv.insert(first + (i - last), word);
        i = i + 1;
        assert(argv@ =~= words.take(first as int) + words.subrange(last as int, i as int)
            + words.subrange(first as int, last as int) + words.skip(i as int));
    }
}

/// Whether a word holds options.
fn holds_options(word: &str) -> (r: bool)
    ensures
        r == is_option_word(word@),
{
    word.unicode_len() > 1 && word.get_char(0) == '-'
}

/// A reader of the options of a command line.
pub struct WGetopter<'o, 'a> {
    pub shortopts: &'o str,
    pub longopts: &'o Vec<WOption>,
    /// The place of the first operand that has been passed.
    pub first_nonopt: usize,
    /// The place behind the last operand that has been passed.
    pub last_nonopt: usize,
    /// The place of the next letter within a cluster; zero between words.
    pub nextchar: usize,
    /// How many words have been read; behind the last option, the place of the first operand.
    pub woptind: usize,
    /// The argument of the option that was read last.
    pub woptarg: Option<&'a str>,
}

impl<'o, 'a> WGetopter<'o, 'a> {
    /// The options that are known.
    pub open spec fn table(self) -> OptionTable {
        OptionTable { short: self.shortopts@, long: long_views(self.longopts@) }
    }

    /// How far the words `argv` have been read.
    pub open spec fn scan(self, argv: Seq<Seq<char>>) -> Scan {
        Scan {
            argv,
            first: self.first_nonopt as int,
            last: self.last_nonopt as int,
            woptind: self.woptind as int,
            pos: self.nextchar as int,
        }
    }

    /// Starts to read a command line.
    pub fn new(shortopts: &'o str, longopts: &'o Vec<WOption>) -> (w: WGetopter<'o, 'a>)
        ensures
            w.table() == (OptionTable { short: shortopts@, long: long_views(longopts@) }),
            forall|argv: Seq<Seq<char>>| #[trigger] w.scan(argv) == Scan::start(argv),
    {
        WGetopter {
            shortopts,
            longopts,
            first_nonopt: 1,
            last_nonopt: 1,
            nextchar: 0,
            woptind: 1,
            woptarg: None,
        }
    }

    /// Reads the next option: what is returned is the character that stands for it, `?` or `:`
    /// where a word cannot be read, and `None` where there are no more options.
    pub fn wgetopt_long(&mut self, argv: &mut Vec<&'a str>) -> (r: Option<char>)
        requires
            old(self).scan(text::views(old(argv)@)).valid(),
        ensures
            final(self).table() == old(self).table(),
            match next(old(self).table(), old(self).scan(text::views(old(argv)@))) {
                Step::Option { val, arg, after } => {
                    &&& r == Some(val)
                    &&& arg_view(final(self).woptarg) == arg
                    &&& final(self).scan(text::views(final(argv)@)) == after
                },
                Step::Rejected { val, after } => {
                    &&& r == Some(val)
                    &&& final(self).scan(text::views(final(argv)@)) == after
                },
                Step::End { argv: words, optind } => {
                    &&& r is None
                    &&& text::views(final(argv)@) == words
                    &&& final(self).woptind == optind
                },
            },
    {
        self.woptarg = None;
        if self.nextchar > 0 {
            return Some(self.read_letter(argv));
        }
        let ghost before = self.scan(text::views(argv@));
        let ghost known = self.table();
        exchange(argv, self.first_nonopt, self.last_nonopt, self.woptind);
        self.first_nonopt = self.first_nonopt + (self.woptind - self.last_nonopt);
        let ghost words = text::views(argv@);
        assert(words =~= before.settled().argv);
        proof {
            lemma_next_option_word(words, self.woptind as int);
        }
        let argc: usize = argv.len();
        while self.woptind < argc && !holds_options(argv[self.woptind])
            invariant
                argc == argv@.len(),
                words == text::views(argv@),
                self.woptind <= argc,
                self.table() == known,
                self.nextchar == 0,
                self.first_nonopt == before.settled().first,
                self.woptarg is None,
                next_option_word(words, self.woptind as int) == next_option_word(
                    words,
                    before.woptind,
                ),
            decreases argc - self.woptind,
        {
            self.woptind = self.woptind + 1;
        }
        self.last_nonopt = self.woptind;
        let ghost here = before.settled().at_option();
        assert(self.scan(words) == here);
        if self.woptind == argc {
            self.woptind = self.first_nonopt;
            return None;
        }
        if same(argv[self.woptind], "--") {
            exchange(argv, self.first_nonopt, self.last_nonopt, self.woptind + 1);
            self.woptind = self.first_nonopt + 1;
            assert(text::views(argv@) =~= here.past(1).settled().argv);
            return None;
        }
        if argv[self.woptind].get_char(1) == '-' {
            Some(self.read_long(argv))
        } else {
            self.nextchar = 1;
            Some(self.read_letter(argv))
        }
    }

    /// Reads the next letter of a cluster.
    fn read_letter(&mut self, argv: &Vec<&'a str>) -> (r: char)
        requires
            old(self).scan(text::views(argv@)).valid(),
            old(self).scan(text::views(argv@)).pos > 0,
            old(self).woptarg is None,
        ensures
            final(self).table() == old(self).table(),
            final(self).reports(
                text::views(argv@),
                r,
                letter_step(old(self).table(), old(self).scan(text::views(argv@))),
            ),
    {
        let argc: usize = argv.len();
        let word: &'a str = argv[self.woptind];
        let len: usize = word.unicode_len();
        let pos: usize = self.nextchar;
        let c = word.get_char(pos);
        match find_letter(self.shortopts, c) {
            None => {
                self.nextchar = 0;
                self.woptind = self.woptind + 1;
                '?'
            },
            Some(WOptionArgument::NoArgument) => {
                if pos + 1 < len {
                    self.nextchar = pos + 1;
                } else {
                    self.nextchar = 0;
                    self.woptind = self.woptind + 1;
                }
                c
            },
            Some(WOptionArgument::RequiredArgument) => {
                self.nextchar = 0;
                self.woptind = self.woptind + 1;
                if pos + 1 < len {
                    assert(word@.subrange(pos + 1, len as int) =~= word@.skip(pos + 1));
                    self.woptarg = Some(word.substring_char(pos + 1, len));
                    c
                } else if self.woptind < argc {
                    self.woptarg = Some(argv[self.woptind]);
                    self.woptind = self.woptind + 1;
                    c
                } else {
                    self.missing()
                }
            },
        }
    }

    /// Reads a word that begins with two dashes.
    fn read_long(&mut self, argv: &Vec<&'a str>) -> (r: char)
        requires
            old(self).scan(text::views(argv@)).valid(),
            old(self).scan(text::views(argv@)).pos == 0,
            old(self).woptind < argv@.len(),
            argv@[old(self).woptind as int]@.len() >= 2,
            old(self).woptarg is None,
        ensures
            final(self).table() == old(self).table(),
            final(self).reports(
                text::views(argv@),
                r,
                long_step(old(self).table(), old(self).scan(text::views(argv@))),
            ),
    {
        let argc: usize = argv.len();
        let word: &'a str = argv[self.woptind];
        let len: usize = word.unicode_len();
        assert(word@.subrange(2, len as int) =~= word@.skip(2));
        let body: &'a str = word.substring_char(2, len);
        let end: usize = find_equals(body);
        let option = find_long_option(self.longopts, body.substring_char(0, end));
        self.woptind = self.woptind + 1;
        match option {
            None => '?',
            Some(option) => {
                if end < len - 2 {
                    if option.has_arg == WOptionArgument::RequiredArgument {
                        assert(body@.subrange(end + 1, len - 2) =~= body@.skip(end + 1));
                        self.woptarg = Some(body.substring_char(end + 1, len - 2));
                        option.val
                    } else {
                        '?'
                    }
                } else if option.has_arg == WOptionArgument::NoArgument {
                    option.val
                } else if self.woptind < argc {
                    self.woptarg = Some(argv[self.woptind]);
                    self.woptind = self.woptind + 1;
                    option.val
                } else {
                    self.missing()
                }
            },
        }
    }

    /// The character by which a missing argument is announced.
    fn missing(&self) -> (r: char)
        ensures
            r == missing_val(self.table().short),
    {
        if !self.shortopts.is_empty() && self.shortopts.get_char(0) == ':' {
            ':'
        } else {
            '?'
        }
    }

    /// Whether the reader, having returned `r`, tells of the given step.
    pub open spec fn reports(self, argv: Seq<Seq<char>>, r: char, step: Step) -> bool {
        match step {
            Step::Option { val, arg, after } => {
                &&& r == val
                &&& arg_view(self.woptarg) == arg
                &&& self.scan(argv) == after
            },
            Step::Rejected { val, after } => r == val && self.scan(argv) == after,
            Step::End { .. } => false,
        }
    }
}

/// An option letter takes an argument exactly if a colon follows where it first occurs; a colon
/// is no option letter, and neither is what does not occur.
pub proof fn law_letters(before: Seq<char>, c: char, behind: Seq<char>)
    requires
        c != ':',
        !before.contains(c),
    ensures
        behind.len() > 0 && behind[0] == ':' ==> letter(before + seq![c] + behind, c) == Some(
            WOptionArgument::RequiredArgument,
        ),
        behind.len() == 0 || behind[0] != ':' ==> letter(before + seq![c] + behind, c) == Some(
            WOptionArgument::NoArgument,
        ),
        letter(before, c) is None,
        letter(before, ':') is None,
{
    let short = before + seq![c] + behind;
    let n = before.len() as int;
    assert(short[n] == c);
    assert forall|j: int| 0 <= j < n implies short[j] != c by {
        assert(short[j] == before[j]);
        assert(before.contains(before[j]));
    }
    assert(is_letter_at(short, c, n));
    let i = choose|i: int| is_letter_at(short, c, i);
    assert(i == n);
    assert(behind.len() > 0 ==> short[n + 1] == behind[0]);
}

/// A long option is meant by its name, and else by the beginning of its name if no other begins
/// so; where two begin so, or none, none is meant.
pub proof fn law_long_names(long: Seq<LongOption>, name: Seq<char>, i: int, j: int)
    requires
        0 <= i < long.len(),
        0 <= j < long.len(),
    ensures
        long[i].name == name && (forall|k: int| 0 <= k < i ==> (#[trigger] long[k]).name != name)
            ==> long_option(long, name) == Some(long[i]),
        name.is_prefix_of(long[i].name) && (forall|k: int|
            0 <= k < long.len() && name.is_prefix_of((#[trigger] long[k]).name) ==> k == i)
            ==> long_option(long, name) == Some(long[i]),
        i != j && name.is_prefix_of(long[i].name) && name.is_prefix_of(long[j].name) && (forall|
            k: int,
        |
            0 <= k < long.len() ==> (#[trigger] long[k]).name != name) ==> long_option(
            long,
            name,
        ) is None,
        (forall|k: int|
            0 <= k < long.len() ==> !name.is_prefix_of((#[trigger] long[k]).name)) ==> long_option(
            long,
            name,
        ) is None,
{
    if long[i].name == name && (forall|k: int| 0 <= k < i ==> (#[trigger] long[k]).name != name) {
        assert(is_exact(long, name, i));
        let m = choose|m: int| is_exact(long, name, m);
        assert(m == i);
    }
    if name.is_prefix_of(long[i].name) && (forall|k: int|
        0 <= k < long.len() && name.is_prefix_of((#[trigger] long[k]).name) ==> k == i) {
        assert(is_only(long, name, i));
        let m = choose|m: int| is_only(long, name, m);
        assert(m == i);
        if exists|m: int| is_exact(long, name, m) {
            let e = choose|m: int| is_exact(long, name, m);
            assert(name.is_prefix_of(long[e].name));
        }
    }
    if i != j && name.is_prefix_of(long[i].name) && name.is_prefix_of(long[j].name) && (forall|
        k: int,
    |
        0 <= k < long.len() ==> (#[trigger] long[k]).name != name) {
        assert forall|m: int| !is_only(long, name, m) by {
            assert(abbreviates(long, name, i) && abbreviates(long, name, j));
        }
        assert(forall|m: int| !is_exact(long, name, m));
    }
    if forall|k: int| 0 <= k < long.len() ==> !name.is_prefix_of((#[trigger] long[k]).name) {
        assert forall|m: int| !is_exact(long, name, m) by {
            if is_exact(long, name, m) {
                assert(name.is_prefix_of(long[m].name));
            }
        }
        assert(forall|m: int| !is_only(long, name, m));
    }
}

/// Whether a scan stands before a word, with all words before it read.
pub open spec fn stands_at(scan: Scan, argv: Seq<Seq<char>>, i: int) -> bool {
    scan == (Scan { argv, first: i, last: i, woptind: i, pos: 0 })
}

proof fn lemma_at_option(scan: Scan, i: int)
    requires
        stands_at(scan, scan.argv, i),
        1 <= i < scan.argv.len(),
        is_option_word(scan.argv[i]),
    ensures
        scan.valid(),
        scan.settled().at_option() == scan,
{
    assert(scan.settled().argv =~= scan.argv);
}

/// A cluster of letters is read letter by letter: a letter that takes no argument leaves the rest
/// of the word to be read, one that takes one has it from the rest of the word or else from the
/// next word, and one that is none is refused.
pub proof fn law_clusters(table: OptionTable, scan: Scan, p: int)
    requires
        scan.valid(),
        scan.woptind < scan.argv.len(),
        ({
            ||| scan.pos == p && p > 0
            ||| stands_at(scan, scan.argv, scan.woptind) && p == 1 && is_option_word(scan.word())
                && scan.word()[1] != '-'
        }),
    ensures
        ({
            let word = scan.word();
            let c = word[p];
            let step = next(table, scan);
            match letter(table.short, c) {
                None => step matches Step::Rejected { val, after } && val == '?' && after.argv
                    == scan.argv && after.woptind == scan.woptind + 1 && after.pos == 0,
                Some(WOptionArgument::NoArgument) => step matches Step::Option { val, arg, after }
                    && val == c && arg is None && after.argv == scan.argv && if p + 1
                    < word.len() {
                    after.woptind == scan.woptind && after.pos == p + 1
                } else {
                    after.woptind == scan.woptind + 1 && after.pos == 0
                },
                Some(WOptionArgument::RequiredArgument) => if p + 1 < word.len() {
                    step matches Step::Option { val, arg, after } && val == c && arg == Some(
                        word.skip(p + 1),
                    ) && after.argv == scan.argv && after.woptind == scan.woptind + 1 && after.pos
                        == 0
                } else if scan.woptind + 1 < scan.argv.len() {
                    step matches Step::Option { val, arg, after } && val == c && arg == Some(
                        scan.argv[scan.woptind + 1],
                    ) && after.argv == scan.argv && after.woptind == scan.woptind + 2 && after.pos
                        == 0
                } else {
                    step matches Step::Rejected { val, after } && after.argv == scan.argv
                        && after.woptind == scan.woptind + 1 && after.pos == 0 && val
                        == if table.short.len() > 0 && table.short[0] == ':' {
                        ':'
                    } else {
                        '?'
                    }
                },
            }
        }),
{
    reveal_strlit("--");
    if scan.pos == 0 {
        lemma_at_option(scan, scan.woptind);
    }
}

/// A word with two dashes holds a long option, and its argument behind an equals sign; an argument
/// that is needed and not there is the next word, and one that is there and not needed is an
/// error.
pub proof fn law_long_words(
    table: OptionTable,
    scan: Scan,
    name: Seq<char>,
    value: Option<Seq<char>>,
)
    requires
        1 <= scan.woptind < scan.argv.len(),
        stands_at(scan, scan.argv, scan.woptind),
        !name.contains('='),
        name.len() > 0 || value is Some,
        scan.word() == seq!['-', '-'] + name + match value {
            Some(v) => seq!['='] + v,
            None => seq![],
        },
    ensures
        ({
            let step = next(table, scan);
            match long_option(table.long, name) {
                None => step matches Step::Rejected { val, after } && val == '?' && after.argv
                    == scan.argv && after.woptind == scan.woptind + 1 && after.pos == 0,
                Some(option) => match (option.has_arg, value) {
                    (WOptionArgument::NoArgument, None) => step matches Step::Option {
                        val,
                        arg,
                        after,
                    } && val == option.val && arg is None && after.argv == scan.argv
                        && after.woptind == scan.woptind + 1 && after.pos == 0,
                    (WOptionArgument::NoArgument, Some(v)) => step matches Step::Rejected {
                        val,
                        after,
                    } && val == '?' && after.argv == scan.argv && after.woptind == scan.woptind
                        + 1 && after.pos == 0,
                    (WOptionArgument::RequiredArgument, Some(v)) => step matches Step::Option {
                        val,
                        arg,
                        after,
                    } && val == option.val && arg == Some(v) && after.argv == scan.argv
                        && after.woptind == scan.woptind + 1 && after.pos == 0,
                    (WOptionArgument::RequiredArgument, None) => if scan.woptind + 1
                        < scan.argv.len() {
                        step matches Step::Option { val, arg, after } && val == option.val && arg
                            == Some(scan.argv[scan.woptind + 1]) && after.argv == scan.argv
                            && after.woptind == scan.woptind + 2 && after.pos == 0
                    } else {
                        step matches Step::Rejected { val, after } && after.argv == scan.argv
                            && after.woptind == scan.woptind + 1 && after.pos == 0 && val
                            == if table.short.len() > 0 && table.short[0] == ':' {
                            ':'
                        } else {
                            '?'
                        }
                    },
                },
            }
        }),
{
    reveal_strlit("--");
    let word = scan.word();
    let body = word.skip(2);
    lemma_at_option(scan, scan.woptind);
    assert(word.len() > 2);
    assert(word[0] == '-' && word[1] == '-');
    match value {
        Some(v) => {
            assert(body =~= name + (seq!['='] + v));
            lemma_equals(name, seq!['='] + v);
            assert(body.skip(name.len() as int + 1) =~= v);
        },
        None => {
            assert(body =~= name);
            lemma_no_equals(name);
        },
    }
    assert(body.take(name.len() as int) =~= name);
}

/// The name ends before the first equals sign.
proof fn lemma_equals(name: Seq<char>, rest: Seq<char>)
    requires
        !name.contains('='),
        rest.len() > 0,
        rest[0] == '=',
    ensures
        before_equals(name + rest) == name.len(),
    decreases name.len(),
{
    if name.len() == 0 {
        assert(name + rest =~= rest);
    } else {
        assert(name.contains(name[0]));
        assert((name + rest)[0] == name[0]);
        assert((name + rest).skip(1) =~= name.skip(1) + rest);
        assert forall|c: char| name.skip(1).contains(c) implies name.contains(c) by {
            let k = choose|k: int| 0 <= k < name.skip(1).len() && name.skip(1)[k] == c;
            assert(name[k + 1] == c);
        }
        lemma_equals(name.skip(1), rest);
    }
}

/// Whether no word holds options.
pub open spec fn all_operands(words: Seq<Seq<char>>) -> bool {
    forall|i: int| 0 <= i < words.len() ==> !is_option_word(#[trigger] words[i])
}

/// Words that hold no options are passed.
proof fn lemma_pass_operands(argv: Seq<Seq<char>>, i: int, j: int)
    requires
        0 <= i <= j <= argv.len(),
        forall|k: int| i <= k < j ==> !is_option_word(#[trigger] argv[k]),
    ensures
        next_option_word(argv, i) == next_option_word(argv, j),
    decreases j - i,
{
    if i < j {
        assert(!is_option_word(argv[i]));
        lemma_pass_operands(argv, i + 1, j);
    }
}

/// A word holds options if it begins with a dash and is not a dash alone.
pub proof fn law_option_words(word: Seq<char>)
    ensures
        is_option_word(word) <==> word.len() >= 2 && word[0] == '-',
{
}

/// Where no option is left, the operands are what is left.
pub proof fn law_operands_are_left(table: OptionTable, read: Seq<Seq<char>>, words: Seq<Seq<char>>)
    requires
        read.len() >= 1,
        all_operands(words),
    ensures
        next(
            table,
            Scan {
                argv: read + words,
                first: read.len() as int,
                last: read.len() as int,
                woptind: read.len() as int,
                pos: 0,
            },
        ) == (Step::End { argv: read + words, optind: read.len() as int }),
{
    let argv = read + words;
    let n = read.len() as int;
    let scan = Scan { argv, first: n, last: n, woptind: n, pos: 0 };
    assert(scan.settled().argv =~= argv);
    assert forall|k: int| n <= k < argv.len() implies !is_option_word(#[trigger] argv[k]) by {
        assert(argv[k] == words[k - n]);
    }
    lemma_pass_operands(argv, n, argv.len() as int);
}

/// The word `--` ends the options: it moves before the operands that were passed, and everything
/// behind it is an operand, whatever it looks like.
pub proof fn law_two_dashes_end_the_options(
    table: OptionTable,
    read: Seq<Seq<char>>,
    words: Seq<Seq<char>>,
    behind: Seq<Seq<char>>,
)
    requires
        read.len() >= 1,
        all_operands(words),
    ensures
        next(
            table,
            Scan {
                argv: read + words + seq!["--"@] + behind,
                first: read.len() as int,
                last: read.len() as int,
                woptind: read.len() as int,
                pos: 0,
            },
        ) == (Step::End {
            argv: read + seq!["--"@] + words + behind,
            optind: read.len() as int + 1,
        }),
{
    reveal_strlit("--");
    let argv = read + words + seq!["--"@] + behind;
    let n = read.len() as int;
    let m = n + words.len();
    let scan = Scan { argv, first: n, last: n, woptind: n, pos: 0 };
    assert(scan.settled().argv =~= argv);
    assert forall|k: int| n <= k < m implies !is_option_word(#[trigger] argv[k]) by {
        assert(argv[k] == words[k - n]);
    }
    lemma_pass_operands(argv, n, m);
    assert(argv[m] == "--"@);
    let here = scan.settled().at_option();
    assert(here.woptind == m);
    assert(here.past(1).settled().argv =~= read + seq!["--"@] + words + behind);
}

/// Whether `group` is one option: a word, and its argument where that is a word of its own.
pub open spec fn is_group(
    table: OptionTable,
    group: Seq<Seq<char>>,
    val: char,
    arg: Option<Seq<char>>,
) -> bool {
    &&& group.len() == 1 || group.len() == 2
    &&& next(table, Scan::start(seq![Seq::<char>::empty()] + group)) matches Step::Option {
        val: v,
        arg: a,
        after,
    }
    &&& v == val
    &&& a == arg
    &&& after.pos == 0
    &&& after.woptind == 1 + group.len()
    &&& is_option_word(group[0])
}

/// One option reads the same wherever it stands: it is read, with the argument it has, and the
/// words behind it are left to be read.
pub proof fn law_options_read_the_same_anywhere(
    table: OptionTable,
    read: Seq<Seq<char>>,
    words: Seq<Seq<char>>,
    group: Seq<Seq<char>>,
    behind: Seq<Seq<char>>,
    val: char,
    arg: Option<Seq<char>>,
)
    requires
        read.len() >= 1,
        all_operands(words),
        is_group(table, group, val, arg),
    ensures
        ({
            let n = read.len() as int;
            let argv = read + words + group + behind;
            next(table, Scan { argv, first: n, last: n, woptind: n, pos: 0 }) == (Step::Option {
                val,
                arg,
                after: Scan {
                    argv,
                    first: n,
                    last: n + words.len(),
                    woptind: n + words.len() + group.len(),
                    pos: 0,
                },
            })
        }),
{
    let n = read.len() as int;
    let m = n + words.len();
    let alone = seq![Seq::<char>::empty()] + group;
    let small = Scan::start(alone);
    assert(alone[1] == group[0]);
    lemma_at_option(small, 1);
    let argv = read + words + group + behind;
    let scan = Scan { argv, first: n, last: n, woptind: n, pos: 0 };
    assert(scan.settled().argv =~= argv);
    assert forall|k: int| n <= k < m implies !is_option_word(#[trigger] argv[k]) by {
        assert(argv[k] == words[k - n]);
    }
    lemma_pass_operands(argv, n, m);
    assert(argv[m] == group[0]);
    assert(next_option_word(argv, m) == m);
    let here = scan.settled().at_option();
    assert(here == (Scan { argv, first: n, last: m, woptind: m, pos: 0 }));
    assert(here.word() == small.word());
    assert(group.len() == 2 ==> alone[2] == group[1] && argv[m + 1] == group[1]);
}

/// An option may stand behind operands as well as before them: what is read next is the same, and
/// so is what comes after it.
pub proof fn law_options_pass_operands(
    table: OptionTable,
    read: Seq<Seq<char>>,
    words: Seq<Seq<char>>,
    group: Seq<Seq<char>>,
    behind: Seq<Seq<char>>,
    val: char,
    arg: Option<Seq<char>>,
) -> (afters: (Scan, Scan))
    requires
        read.len() >= 1,
        all_operands(words),
        is_group(table, group, val, arg),
    ensures
        ({
            let n = read.len() as int;
            let first = read + words + group + behind;
            let second = read + group + words + behind;
            &&& next(table, Scan { argv: first, first: n, last: n, woptind: n, pos: 0 }) == (
            Step::Option { val, arg, after: afters.0 })
            &&& next(table, Scan { argv: second, first: n, last: n, woptind: n, pos: 0 }) == (
            Step::Option { val, arg, after: afters.1 })
            &&& next(table, afters.0) == next(table, afters.1)
        }),
{
    let n = read.len() as int;
    let m = n + words.len();
    let none: Seq<Seq<char>> = seq![];
    let first = read + words + group + behind;
    let second = read + group + words + behind;
    law_options_read_the_same_anywhere(table, read, words, group, behind, val, arg);
    law_options_read_the_same_anywhere(table, read, none, group, words + behind, val, arg);
    assert(read + none + group + (words + behind) =~= second);
    let a = Scan { argv: first, first: n, last: m, woptind: m + group.len(), pos: 0 };
    let b = Scan { argv: second, first: n, last: n, woptind: n + group.len(), pos: 0 };
    assert(a.settled().argv =~= second);
    assert(b.settled().argv =~= second);
    let k = n + group.len();
    assert forall|i: int| k <= i < k + words.len() implies !is_option_word(
        #[trigger] second[i],
    ) by {
        assert(second[i] == words[i - k]);
    }
    lemma_pass_operands(second, k, k + words.len());
    assert(a.settled().at_option() == b.settled().at_option());
    (a, b)
}

} // verus!
