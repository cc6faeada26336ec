//! The options of `status`, and how they are read.

use libc::c_int;
use vstd::prelude::*;

use crate::messages::{ends_line, Messages};
use crate::opts::{JobControl, StatusCmdOpts};
use crate::printf::{formatted, law_lines_stay_lines, Arg};
use crate::shared;
use crate::status_cmd::StatusCmd;
use crate::streams::{BuiltinRequest, IoStreams, Request, Written};
use crate::text;
use crate::wcstoi;
use crate::wgetopt;
use crate::wgetopt::{LongOption, OptionTable, Scan, Step, WGetopter, WOption, WOptionArgument};

verus! {

/// The option letters.
pub const SHORT_OPTIONS: &'static str = ":L:cbilfnhj:t";

/// The long options.
pub open spec fn long_option_table() -> Seq<LongOption> {
    let no_arg = |name: Seq<char>, val: char|
        LongOption { name, has_arg: WOptionArgument::NoArgument, val };
    let with_arg = |name: Seq<char>, val: char|
        LongOption { name, has_arg: WOptionArgument::RequiredArgument, val };
    seq![
        no_arg("help"@, 'h'),
        no_arg("current-filename"@, 'f'),
        no_arg("current-line-number"@, 'n'),
        no_arg("filename"@, 'f'),
        no_arg("fish-path"@, StatusCmd::STATUS_FISH_PATH.number() as char),
        no_arg("is-block"@, 'b'),
        no_arg("is-command-substitution"@, 'c'),
        no_arg("is-full-job-control"@, StatusCmd::STATUS_IS_FULL_JOB_CTRL.number() as char),
        no_arg("is-interactive"@, 'i'),
        no_arg(
            "is-interactive-job-control"@,
            StatusCmd::STATUS_IS_INTERACTIVE_JOB_CTRL.number() as char,
        ),
        no_arg("is-login"@, 'l'),
        no_arg("is-no-job-control"@, StatusCmd::STATUS_IS_NO_JOB_CTRL.number() as char),
        with_arg("job-control"@, 'j'),
        with_arg("level"@, 'L'),
        no_arg("line"@, 'n'),
        no_arg("line-number"@, 'n'),
        no_arg("print-stack-trace"@, 't'),
    ]
}

/// The options of `status`.
pub open spec fn option_table() -> OptionTable {
    OptionTable { short: SHORT_OPTIONS@, long: long_option_table() }
}

/// Lists the long options.
pub fn long_options() -> (r: Vec<WOption>)
    ensures
        wgetopt::long_views(r@) == long_option_table(),
{
    let no_argument = WOptionArgument::NoArgument;
    let required_argument = WOptionArgument::RequiredArgument;
    let r = vec![
        wgetopt::wopt("help", no_argument, 'h'),
        wgetopt::wopt("current-filename", no_argument, 'f'),
        wgetopt::wopt("current-line-number", no_argument, 'n'),
        wgetopt::wopt("filename", no_argument, 'f'),
        wgetopt::wopt("fish-path", no_argument, StatusCmd::STATUS_FISH_PATH.as_char()),
        wgetopt::wopt("is-block", no_argument, 'b'),
        wgetopt::wopt("is-command-substitution", no_argument, 'c'),
        wgetopt::wopt(
            "is-full-job-control",
            no_argument,
            StatusCmd::STATUS_IS_FULL_JOB_CTRL.as_char(),
        ),
        wgetopt::wopt("is-interactive", no_argument, 'i'),
        wgetopt::wopt(
            "is-interactive-job-control",
            no_argument,
            StatusCmd::STATUS_IS_INTERACTIVE_JOB_CTRL.as_char(),
        ),
        wgetopt::wopt("is-login", no_argument, 'l'),
        wgetopt::wopt(
            "is-no-job-control",
            no_argument,
            StatusCmd::STATUS_IS_NO_JOB_CTRL.as_char(),
        ),
        wgetopt::wopt("job-control", required_argument, 'j'),
        wgetopt::wopt("level", required_argument, 'L'),
        wgetopt::wopt("line", no_argument, 'n'),
        wgetopt::wopt("line-number", no_argument, 'n'),
        wgetopt::wopt("print-stack-trace", no_argument, 't'),
    ];
    assert(wgetopt::long_views(r@) =~= long_option_table());
    r
}

/// A call that cannot be gone on with: how far the options had been read, the exit code, and the
/// message.
pub ghost struct Refusal {
    pub opts: StatusCmdOpts,
    pub code: c_int,
    pub message: Seq<char>,
}

/// Chooses a subcommand, which can be done once.
pub open spec fn with_cmd(
    messages: Messages,
    opts: StatusCmdOpts,
    cmd: Seq<char>,
    sub_cmd: StatusCmd,
) -> Result<StatusCmdOpts, Refusal> {
    if opts.status_cmd == StatusCmd::STATUS_UNDEF {
        Ok(StatusCmdOpts { status_cmd: sub_cmd, ..opts })
    } else {
        Err(
            Refusal {
                opts,
                code: shared::STATUS_CMD_ERROR,
                message: shared::combo2_exclusive(
                    messages,
                    cmd,
                    opts.status_cmd.name(),
                    sub_cmd.name(),
                ),
            },
        )
    }
}

/// Takes `arg` as the level: an integer that is not negative.
pub open spec fn with_level(
    messages: Messages,
    opts: StatusCmdOpts,
    cmd: Seq<char>,
    arg: Seq<char>,
) -> Result<StatusCmdOpts, Refusal> {
    match wcstoi::read(arg) {
        Ok(level) => if level >= 0 {
            Ok(StatusCmdOpts { level, ..opts })
        } else {
            Err(
                Refusal {
                    opts,
                    code: shared::STATUS_INVALID_ARGS,
                    message: shared::invalid_level(messages, cmd, arg),
                },
            )
        },
        Err(wcstoi::Error::Overflow) => Err(
            Refusal {
                opts,
                code: shared::STATUS_INVALID_ARGS,
                message: shared::invalid_level(messages, cmd, arg),
            },
        ),
        Err(_) => Err(
            Refusal {
                opts,
                code: shared::STATUS_INVALID_ARGS,
                message: shared::not_number(messages, cmd, arg),
            },
        ),
    }
}

/// Takes `arg` as the job control mode to set.
pub open spec fn with_mode(
    messages: Messages,
    opts: StatusCmdOpts,
    cmd: Seq<char>,
    arg: Seq<char>,
) -> Result<StatusCmdOpts, Refusal> {
    match with_cmd(messages, opts, cmd, StatusCmd::STATUS_SET_JOB_CONTROL) {
        Err(refusal) => Err(refusal),
        Ok(chosen) => match JobControl::named(arg) {
            Some(mode) => Ok(StatusCmdOpts { new_job_control_mode: Some(mode), ..chosen }),
            None => Err(
                Refusal {
                    opts: chosen,
                    code: shared::STATUS_CMD_ERROR,
                    message: shared::invalid_job_control_mode(messages, cmd, arg),
                },
            ),
        },
    }
}

/// The subcommand that an option stands for, where it does nothing but choose it.
pub open spec fn option_cmd(val: char) -> Option<StatusCmd> {
    if val == 'c' {
        Some(StatusCmd::STATUS_IS_COMMAND_SUB)
    } else if val == 'b' {
        Some(StatusCmd::STATUS_IS_BLOCK)
    } else if val == 'i' {
        Some(StatusCmd::STATUS_IS_INTERACTIVE)
    } else if val == 'l' {
        Some(StatusCmd::STATUS_IS_LOGIN)
    } else if val == 'f' {
        Some(StatusCmd::STATUS_FILENAME)
    } else if val == 'n' {
        Some(StatusCmd::STATUS_LINE_NUMBER)
    } else if val == 't' {
        Some(StatusCmd::STATUS_STACK_TRACE)
    } else if val as u32 == StatusCmd::STATUS_IS_FULL_JOB_CTRL.number() {
        Some(StatusCmd::STATUS_IS_FULL_JOB_CTRL)
    } else if val as u32 == StatusCmd::STATUS_IS_INTERACTIVE_JOB_CTRL.number() {
        Some(StatusCmd::STATUS_IS_INTERACTIVE_JOB_CTRL)
    } else if val as u32 == StatusCmd::STATUS_IS_NO_JOB_CTRL.number() {
        Some(StatusCmd::STATUS_IS_NO_JOB_CTRL)
    } else if val as u32 == StatusCmd::STATUS_FISH_PATH.number() {
        Some(StatusCmd::STATUS_FISH_PATH)
    } else {
        None
    }
}

/// Whether `val` stands for an option of `status`, and `arg` is there if the option takes one.
pub open spec fn is_option(val: char, arg: Option<Seq<char>>) -> bool {
    if val == 'L' || val == 'j' {
        arg is Some
    } else {
        val == 'h' || option_cmd(val) is Some
    }
}

/// What the options come to when one more is read.
pub open spec fn with_option(
    messages: Messages,
    opts: StatusCmdOpts,
    cmd: Seq<char>,
    val: char,
    arg: Option<Seq<char>>,
) -> Result<StatusCmdOpts, Refusal>
    recommends
        is_option(val, arg),
{
    if val == 'L' {
        with_level(messages, opts, cmd, arg->0)
    } else if val == 'j' {
        with_mode(messages, opts, cmd, arg->0)
    } else if val == 'h' {
        Ok(StatusCmdOpts { print_help: true, ..opts })
    } else {
        with_cmd(messages, opts, cmd, option_cmd(val)->0)
    }
}

/// What reading all options leads to: an exit code, what the options come to, the place of the
/// first operand if the options could be read, what is written, and how the words then stand.
pub ghost struct Parsed {
    pub code: c_int,
    pub opts: StatusCmdOpts,
    pub optind: Option<int>,
    pub written: Written,
    pub argv: Seq<Seq<char>>,
}

/// What is said of a word that cannot be read.
pub open spec fn complaint(cmd: Seq<char>, val: char, word: Seq<char>) -> Request {
    if val == ':' {
        Request::MissingArgument { cmd, opt: word, print_hints: false }
    } else {
        Request::UnknownOption { cmd, opt: word, print_hints: false }
    }
}

/// Reads the options from where `scan` stands, given what those before come to.
pub open spec fn parsed(
    messages: Messages,
    cmd: Seq<char>,
    scan: Scan,
    opts: StatusCmdOpts,
) -> Parsed
    decreases
            scan.argv.len() - scan.woptind,
            if scan.woptind < scan.argv.len() {
                scan.word().len() - scan.pos
            } else {
                0
            },
    when scan.valid()
{
    proof {
        wgetopt::law_reading_leads_on(option_table(), scan);
    }
    match wgetopt::next(option_table(), scan) {
        Step::End { argv, optind } => Parsed {
            code: shared::STATUS_CMD_OK,
            opts,
            optind: Some(optind),
            written: Written::nothing(),
            argv,
        },
        Step::Rejected { val, after } => Parsed {
            code: shared::STATUS_INVALID_ARGS,
            opts,
            optind: None,
            written: Written::request(complaint(cmd, val, after.argv[after.woptind - 1])),
            argv: after.argv,
        },
        Step::Option { val, arg, after } => match with_option(messages, opts, cmd, val, arg) {
            Ok(more) => parsed(messages, cmd, after, more),
            Err(refusal) => Parsed {
                code: refusal.code,
                opts: refusal.opts,
                optind: None,
                written: Written::on_err(refusal.message),
                argv: after.argv,
            },
        },
    }
}

/// An option letter of `status` stands for one of its options, and takes an argument if that
/// option does.
proof fn lemma_letters(c: char)
    ensures
        wgetopt::letter(SHORT_OPTIONS@, c) is Some ==> c == 'h' || option_cmd(c) is Some || c
            == 'L' || c == 'j',
        wgetopt::letter(SHORT_OPTIONS@, c) == Some(WOptionArgument::RequiredArgument) <==> c
            == 'L' || c == 'j',
{
    let short = SHORT_OPTIONS@;
    reveal_strlit(":L:cbilfnhj:t");
    assert(short[1] == 'L' && short[10] == 'j');
    if c != ':' && short.contains(c) {
        let k = choose|k: int| 0 <= k < short.len() && short[k] == c;
        wgetopt::lemma_letter_at(short, c, k);
        let i = choose|i: int| wgetopt::is_letter_at(short, c, i);
        assert(wgetopt::is_letter_at(short, c, i));
        assert(0 <= i < 13);
    }
}

/// Whatever a command line holds, an option that is read from it is one that `status` knows what
/// to do with, and comes with an argument if it needs one.
pub proof fn law_options_are_known(scan: Scan)
    requires
        scan.valid(),
    ensures
        match wgetopt::next(option_table(), scan) {
            Step::Option { val, arg, after } => is_option(val, arg),
            Step::Rejected { val, after } => val == ':' || val == '?',
            Step::End { .. } => true,
        },
{
    reveal_strlit(":L:cbilfnhj:t");
    assert forall|c: char| true implies (wgetopt::letter(SHORT_OPTIONS@, c) is Some ==> c == 'h'
        || option_cmd(c) is Some || c == 'L' || c == 'j') && (#[trigger] wgetopt::letter(
        SHORT_OPTIONS@,
        c,
    ) == Some(WOptionArgument::RequiredArgument) <==> c == 'L' || c == 'j') by {
        lemma_letters(c);
    }
    let long = long_option_table();
    assert forall|i: int| 0 <= i < long.len() implies {
        let option = #[trigger] long[i];
        &&& is_option(option.val, Some(seq![]))
        &&& option.has_arg == WOptionArgument::RequiredArgument <==> option.val == 'L'
            || option.val == 'j'
    } by {
    }
}

/// What holds of the reading of a command line `argv` that begins with `opts` and ends with
/// `read`, wherever it begins.
pub open spec fn reads_well(
    messages: Messages,
    argv: Seq<Seq<char>>,
    opts: StatusCmdOpts,
    read: Parsed,
) -> bool {
    // The words are only moved, and the name of the command stays in front.
    &&& read.argv.len() == argv.len()
    &&& read.argv.to_multiset() == argv.to_multiset()
    &&& read.argv[0] == argv[0]
    // It succeeds, in silence, and finds where the operands begin; or it fails, says so (if the
    // complaints are not translated to nothing), and puts out nothing.
    &&& read.code == shared::STATUS_CMD_OK <==> read.optind is Some
    &&& read.optind is Some ==> read.written == Written::nothing()
    &&& read.optind is Some ==> 1 <= read.optind->0 <= read.argv.len()
    &&& read.code == shared::STATUS_CMD_OK || read.code == shared::STATUS_CMD_ERROR || read.code
        == shared::STATUS_INVALID_ARGS
    &&& read.written.out.len() == 0
    &&& read.optind is None && messages.complaints_are_lines() ==> read.written.err.len() > 0
        || read.written.requests.len() > 0
    // What holds of all options holds of these.
    &&& opts.valid() ==> read.opts.valid()
    &&& read.optind is Some && opts.mode_matches_cmd() ==> read.opts.mode_matches_cmd()
    // A choice once made stands, and help once asked for is not forgotten.
    &&& opts.status_cmd != StatusCmd::STATUS_UNDEF ==> read.opts.status_cmd == opts.status_cmd
    &&& opts.print_help ==> read.opts.print_help
}

proof fn lemma_parsed(messages: Messages, cmd: Seq<char>, scan: Scan, opts: StatusCmdOpts)
    requires
        scan.valid(),
    ensures
        reads_well(messages, scan.argv, opts, parsed(messages, cmd, scan, opts)),
    decreases
            scan.argv.len() - scan.woptind,
            if scan.woptind < scan.argv.len() {
                scan.word().len() - scan.pos
            } else {
                0
            },
{
    wgetopt::law_reading_leads_on(option_table(), scan);
    wgetopt::law_words_are_only_moved(option_table(), scan);
    law_options_are_known(scan);
    match wgetopt::next(option_table(), scan) {
        Step::Option { val, arg, after } => match with_option(messages, opts, cmd, val, arg) {
            Ok(more) => lemma_parsed(messages, cmd, after, more),
            Err(refusal) => if messages.complaints_are_lines() {
                lemma_refusals_are_lines(messages, opts, cmd, val, arg);
            },
        },
        _ => {},
    }
}

/// Where every complaint ends a line, a refusal is not silent.
proof fn lemma_refusals_are_lines(
    messages: Messages,
    opts: StatusCmdOpts,
    cmd: Seq<char>,
    val: char,
    arg: Option<Seq<char>>,
)
    requires
        messages.complaints_are_lines(),
    ensures
        with_option(messages, opts, cmd, val, arg) matches Err(refusal) ==> ends_line(
            refusal.message,
        ),
{
    assert forall|fmt: Seq<char>, args: Seq<Arg>| ends_line(fmt) implies ends_line(
        #[trigger] formatted(fmt, args),
    ) by {
        law_lines_stay_lines(fmt, args);
    }
}

/// Reading the options of a command line moves its words, but adds and drops none, and leaves
/// the name of the command in front. It succeeds, in silence, and finds where the operands begin;
/// or it fails with an exit code of its own, and says so. In either case the level is not
/// negative, a job control mode has been taken only together with the choice to set it, and a
/// subcommand once chosen has not been exchanged for another. Where it succeeds, that choice has
/// not been made without a mode either.
pub proof fn law_options_read(messages: Messages, argv: Seq<Seq<char>>, opts: StatusCmdOpts)
    requires
        argv.len() >= 1,
    ensures
        reads_well(messages, argv, opts, parsed(messages, argv[0], Scan::start(argv), opts)),
{
    lemma_parsed(messages, argv[0], Scan::start(argv), opts);
}

/// Once a subcommand has been chosen, an option that chooses one, be it the same, ends the
/// reading with an error, and the choice that was made stands.
pub proof fn law_second_choice_is_refused(
    messages: Messages,
    opts: StatusCmdOpts,
    cmd: Seq<char>,
    val: char,
    arg: Option<Seq<char>>,
)
    requires
        is_option(val, arg),
        opts.status_cmd != StatusCmd::STATUS_UNDEF,
        val == 'j' || option_cmd(val) is Some,
    ensures
        ({
            let sub_cmd = if val == 'j' {
                StatusCmd::STATUS_SET_JOB_CONTROL
            } else {
                option_cmd(val)->0
            };
            with_option(messages, opts, cmd, val, arg) == Err::<StatusCmdOpts, Refusal>(
                Refusal {
                    opts,
                    code: shared::STATUS_CMD_ERROR,
                    message: shared::combo2_exclusive(
                        messages,
                        cmd,
                        opts.status_cmd.name(),
                        sub_cmd.name(),
                    ),
                },
            )
        }),
{
}

/// An option that goes by the name of a subcommand, and takes no argument, chooses that
/// subcommand.
pub proof fn law_flags_agree_with_names(i: int)
    requires
        0 <= i < long_option_table().len(),
        long_option_table()[i].has_arg == WOptionArgument::NoArgument,
        StatusCmd::named(long_option_table()[i].name) is Some,
    ensures
        option_cmd(long_option_table()[i].val) == StatusCmd::named(long_option_table()[i].name),
{
    crate::status_cmd::lemma_names_differ();
    reveal_strlit("help");
    reveal_strlit("line");
}

/// No two long options go by the same name, and no name holds an equals sign.
proof fn lemma_long_names(i: int)
    requires
        0 <= i < long_option_table().len(),
    ensures
        wgetopt::is_exact(long_option_table(), long_option_table()[i].name, i),
        !long_option_table()[i].name.contains('='),
        long_option_table()[i].name.len() > 0,
{
    reveal_strlit("help");
    reveal_strlit("current-filename");
    reveal_strlit("current-line-number");
    reveal_strlit("filename");
    reveal_strlit("fish-path");
    reveal_strlit("is-block");
    reveal_strlit("is-command-substitution");
    reveal_strlit("is-full-job-control");
    reveal_strlit("is-interactive");
    reveal_strlit("is-interactive-job-control");
    reveal_strlit("is-login");
    reveal_strlit("is-no-job-control");
    reveal_strlit("job-control");
    reveal_strlit("level");
    reveal_strlit("line");
    reveal_strlit("line-number");
    reveal_strlit("print-stack-trace");
    let long = long_option_table();
    let name = long[i].name;
    assert forall|j: int| 0 <= j < i implies (#[trigger] long[j]).name != name by {
        assert(long[j].name.len() != name.len() || long[j].name[0] != name[0] || long[j].name[1]
            != name[1] || long[j].name[3] != name[3] || long[j].name[8] != name[8]);
    }
}

/// An option spelled out in full, after two dashes, is that option.
pub proof fn law_long_options_are_found(scan: Scan, i: int)
    requires
        scan.valid(),
        scan.pos == 0,
        scan.woptind < scan.argv.len(),
        0 <= i < long_option_table().len(),
        long_option_table()[i].has_arg == WOptionArgument::NoArgument,
        scan.word() == "--"@ + long_option_table()[i].name,
    ensures
        wgetopt::next(option_table(), scan) == (Step::Option {
            val: long_option_table()[i].val,
            arg: None,
            after: scan.settled().at_option().past(1),
        }),
        scan.settled().at_option().woptind == scan.woptind,
{
    let name = long_option_table()[i].name;
    lemma_long_names(i);
    reveal_strlit("--");
    let here = scan.settled().at_option();
    assert(scan.settled().argv[scan.woptind] == scan.word());
    assert(here.word() == scan.word());
    assert(here.word().len() > 2);
    assert(here.word().skip(2) =~= name);
    wgetopt::lemma_no_equals(name);
    assert(name.take(name.len() as int) =~= name);
    let k = choose|k: int| wgetopt::is_exact(long_option_table(), name, k);
    assert(wgetopt::is_exact(long_option_table(), name, k));
    assert(k == i) by {
        if k < i {
            assert(long_option_table()[k].name == name);
        } else if i < k {
            assert(long_option_table()[i].name == name);
        }
    }
}

/// What keeps a call from being gone on with: the exit code and the message.
struct Stop {
    code: c_int,
    message: String,
}

/// Whether the options have become what `expected` says.
spec fn follows(
    r: Result<(), Stop>,
    opts: StatusCmdOpts,
    expected: Result<StatusCmdOpts, Refusal>,
) -> bool {
    match expected {
        Ok(more) => r is Ok && opts == more,
        Err(refusal) => r matches Err(stop) && stop.code == refusal.code && stop.message@
            == refusal.message && opts == refusal.opts,
    }
}

/// Chooses a subcommand.
fn choose_cmd(
    messages: &Messages,
    opts: &mut StatusCmdOpts,
    cmd: &str,
    sub_cmd: StatusCmd,
) -> (r: Result<(), Stop>)
    ensures
        follows(r, *final(opts), with_cmd(*messages, *old(opts), cmd@, sub_cmd)),
{
    match opts.set_status_cmd(messages, cmd, sub_cmd) {
        Ok(()) => Ok(()),
        Err(message) => Err(Stop { code: shared::STATUS_CMD_ERROR, message }),
    }
}

/// Takes `arg` as the level.
fn set_level(messages: &Messages, opts: &mut StatusCmdOpts, cmd: &str, arg: &str) -> (r: Result<
    (),
    Stop,
>)
    ensures
        follows(r, *final(opts), with_level(*messages, *old(opts), cmd@, arg@)),
{
    let message = match wcstoi::fish_wcstoi(arg) {
        Ok(level) => {
            if level >= 0 {
                opts.level = level;
                return Ok(());
            }
            shared::invalid_level_text(messages, cmd, arg)
        },
        Err(wcstoi::Error::Overflow) => shared::invalid_level_text(messages, cmd, arg),
        Err(_) => shared::not_number_text(messages, cmd, arg),
    };
    Err(Stop { code: shared::STATUS_INVALID_ARGS, message })
}

/// Takes `arg` as the job control mode to set.
fn set_mode(messages: &Messages, opts: &mut StatusCmdOpts, cmd: &str, arg: &str) -> (r: Result<
    (),
    Stop,
>)
    ensures
        follows(r, *final(opts), with_mode(*messages, *old(opts), cmd@, arg@)),
{
    if let Err(stop) = choose_cmd(messages, opts, cmd, StatusCmd::STATUS_SET_JOB_CONTROL) {
        return Err(stop);
    }
    match JobControl::try_from(arg) {
        Ok(mode) => {
            opts.new_job_control_mode = Some(mode);
            Ok(())
        },
        Err(()) => Err(
            Stop {
                code: shared::STATUS_CMD_ERROR,
                message: shared::invalid_job_control_mode_text(messages, cmd, arg),
            },
        ),
    }
}

/// Takes one more option into account.
fn apply_option(
    messages: &Messages,
    opts: &mut StatusCmdOpts,
    cmd: &str,
    c: char,
    woptarg: Option<&str>,
) -> (r: Result<(), Stop>)
    requires
        is_option(c, wgetopt::arg_view(woptarg)),
    ensures
        follows(
            r,
            *final(opts),
            with_option(*messages, *old(opts), cmd@, c, wgetopt::arg_view(woptarg)),
        ),
{
    match c {
        'L' => set_level(messages, opts, cmd, woptarg.unwrap()),
        'c' => choose_cmd(messages, opts, cmd, StatusCmd::STATUS_IS_COMMAND_SUB),
        'b' => choose_cmd(messages, opts, cmd, StatusCmd::STATUS_IS_BLOCK),
        'i' => choose_cmd(messages, opts, cmd, StatusCmd::STATUS_IS_INTERACTIVE),
        'l' => choose_cmd(messages, opts, cmd, StatusCmd::STATUS_IS_LOGIN),
        'f' => choose_cmd(messages, opts, cmd, StatusCmd::STATUS_FILENAME),
        'n' => choose_cmd(messages, opts, cmd, StatusCmd::STATUS_LINE_NUMBER),
        'j' => set_mode(messages, opts, cmd, woptarg.unwrap()),
        't' => choose_cmd(messages, opts, cmd, StatusCmd::STATUS_STACK_TRACE),
        'h' => {
            opts.print_help = true;
            Ok(())
        },
        c => {
            let opt_cmd = StatusCmd::from_u32(c as u32);
            choose_cmd(messages, opts, cmd, opt_cmd.unwrap())
        },
    }
}

/// Reads the options, and leaves the place of the first operand in `optind`.
pub fn parse_cmd_opts<'a>(
    messages: &Messages,
    opts: &mut StatusCmdOpts,
    optind: &mut usize,
    args: &mut Vec<&'a str>,
    streams: &mut IoStreams,
) -> (r: Option<c_int>)
    requires
        old(args)@.len() >= 1,
    ensures
        ({
            let words = text::views(old(args)@);
            let expected = parsed(*messages, words[0], Scan::start(words), *old(opts));
            &&& r == Some(expected.code)
            &&& *final(opts) == expected.opts
            &&& *final(optind) == match expected.optind {
                Some(place) => place,
                None => *old(optind) as int,
            }
            &&& final(streams)@ == old(streams)@.plus(expected.written)
            &&& text::views(final(args)@) == expected.argv
        }),
{
    let cmd: &'a str = args[0];
    let longopts = long_options();
    let mut w = WGetopter::new(SHORT_OPTIONS, &longopts);
    let ghost words = text::views(args@);
    let ghost expected = parsed(*messages, words[0], Scan::start(words), *opts);
    loop
        invariant
            words == text::views(old(args)@),
            cmd@ == words[0],
            expected == parsed(*messages, words[0], Scan::start(words), *old(opts)),
            w.table() == option_table(),
            w.scan(text::views(args@)).valid(),
            expected == parsed(*messages, cmd@, w.scan(text::views(args@)), *opts),
            streams@ == old(streams)@,
            *optind == *old(optind),
        decreases
                args@.len() - w.woptind,
                if w.woptind < args@.len() {
                    args@[w.woptind as int]@.len() - w.nextchar
                } else {
                    0
                },
    {
        let ghost scan = w.scan(text::views(args@));
        proof {
            wgetopt::law_reading_leads_on(option_table(), scan);
            law_options_are_known(scan);
            crate::streams::law_writing_adds_up(
                old(streams)@,
                Written::nothing(),
                Written::nothing(),
            );
        }
        let c = match w.wgetopt_long(args) {
            Some(c) => c,
            None => {
                *optind = w.woptind;
                return Some(shared::STATUS_CMD_OK);
            },
        };
        if c == ':' {
            let opt = args[w.woptind - 1];
            streams.request(
                BuiltinRequest::MissingArgument {
                    cmd: cmd.to_owned(),
                    opt: opt.to_owned(),
                    print_hints: false,
                },
            );
            return Some(shared::STATUS_INVALID_ARGS);
        }
        if c == '?' {
            let opt = args[w.woptind - 1];
            streams.request(
                BuiltinRequest::UnknownOption {
                    cmd: cmd.to_owned(),
                    opt: opt.to_owned(),
                    print_hints: false,
                },
            );
            return Some(shared::STATUS_INVALID_ARGS);
        }
        if let Err(stop) = apply_option(messages, opts, cmd, c, w.woptarg) {
            streams.append_err(stop.message.as_str());
            return Some(stop.code);
        }
    }
}

/// The option letters, and which of them take an argument.
pub proof fn law_option_letters(c: char)
    ensures
        wgetopt::letter(SHORT_OPTIONS@, c) == Some(WOptionArgument::RequiredArgument) <==> c == 'L'
            || c == 'j',
        wgetopt::letter(SHORT_OPTIONS@, c) == Some(WOptionArgument::NoArgument) <==> c == 'c' || c
            == 'b' || c == 'i' || c == 'l' || c == 'f' || c == 'n' || c == 'h' || c == 't',
        SHORT_OPTIONS@.len() > 0 && SHORT_OPTIONS@[0] == ':',
{
    reveal_strlit(":L:cbilfnhj:t");
    let short = SHORT_OPTIONS@;
    assert(short[1] == 'L' && short[3] == 'c' && short[4] == 'b' && short[5] == 'i' && short[6]
        == 'l' && short[7] == 'f' && short[8] == 'n' && short[9] == 'h' && short[10] == 'j'
        && short[12] == 't');
    lemma_letters(c);
    if c != ':' && short.contains(c) {
        let k = choose|k: int| 0 <= k < short.len() && short[k] == c;
        assert(0 <= k < 13);
    }
}

/// The subcommands that the options choose, by the characters that stand for the options.
pub proof fn law_options_choose(c: char)
    ensures
        option_cmd(c) == Some(StatusCmd::STATUS_IS_COMMAND_SUB) <==> c == 'c',
        option_cmd(c) == Some(StatusCmd::STATUS_IS_BLOCK) <==> c == 'b',
        option_cmd(c) == Some(StatusCmd::STATUS_IS_INTERACTIVE) <==> c == 'i',
        option_cmd(c) == Some(StatusCmd::STATUS_IS_LOGIN) <==> c == 'l',
        option_cmd(c) == Some(StatusCmd::STATUS_FILENAME) <==> c == 'f',
        option_cmd(c) == Some(StatusCmd::STATUS_LINE_NUMBER) <==> c == 'n',
        option_cmd(c) == Some(StatusCmd::STATUS_STACK_TRACE) <==> c == 't',
        option_cmd(c) == Some(StatusCmd::STATUS_FISH_PATH) <==> c as u32 == 6,
        option_cmd(c) == Some(StatusCmd::STATUS_IS_FULL_JOB_CTRL) <==> c as u32 == 11,
        option_cmd(c) == Some(StatusCmd::STATUS_IS_INTERACTIVE_JOB_CTRL) <==> c as u32 == 13,
        option_cmd(c) == Some(StatusCmd::STATUS_IS_NO_JOB_CTRL) <==> c as u32 == 15,
        option_cmd(c) is None <==> !(c == 'c' || c == 'b' || c == 'i' || c == 'l' || c == 'f' || c
            == 'n' || c == 't' || c as u32 == 6 || c as u32 == 11 || c as u32 == 13 || c as u32
            == 15),
{
}

/// The names of the long options: there are these, and no others.
pub proof fn law_long_options(s: Seq<char>)
    ensures
        (exists|i: int|
            0 <= i < long_option_table().len() && (#[trigger] long_option_table()[i]).name == s)
            <==> s == "help"@
            || s == "current-filename"@
            || s == "current-line-number"@
            || s == "filename"@
            || s == "fish-path"@
            || s == "is-block"@
            || s == "is-command-substitution"@
            || s == "is-full-job-control"@
            || s == "is-interactive"@
            || s == "is-interactive-job-control"@
            || s == "is-login"@
            || s == "is-no-job-control"@
            || s == "job-control"@
            || s == "level"@
            || s == "line"@
            || s == "line-number"@
            || s == "print-stack-trace"@,
{
    let long = long_option_table();
    if exists|i: int| 0 <= i < long.len() && (#[trigger] long[i]).name == s {
        let i = choose|i: int| 0 <= i < long.len() && (#[trigger] long[i]).name == s;
        assert(0 <= i < 17);
    }
    assert(long[0].name == "help"@);
    assert(long[1].name == "current-filename"@);
    assert(long[2].name == "current-line-number"@);
    assert(long[3].name == "filename"@);
    assert(long[4].name == "fish-path"@);
    assert(long[5].name == "is-block"@);
    assert(long[6].name == "is-command-substitution"@);
    assert(long[7].name == "is-full-job-control"@);
    assert(long[8].name == "is-interactive"@);
    assert(long[9].name == "is-interactive-job-control"@);
    assert(long[10].name == "is-login"@);
    assert(long[11].name == "is-no-job-control"@);
    assert(long[12].name == "job-control"@);
    assert(long[13].name == "level"@);
    assert(long[14].name == "line"@);
    assert(long[15].name == "line-number"@);
    assert(long[16].name == "print-stack-trace"@);
}

/// What the long options do that go by no subcommand's name: `help` asks for help, `level` and
/// `job-control` take an argument, and alone do, and `line` asks for the line number.
pub proof fn law_long_options_with_arguments(i: int)
    requires
        0 <= i < long_option_table().len(),
    ensures
        ({
            let option = long_option_table()[i];
            &&& option.name == "help"@ <==> option.val == 'h'
            &&& option.name == "level"@ <==> option.val == 'L'
            &&& option.name == "job-control"@ <==> option.val == 'j'
            &&& option.name == "line"@ ==> option.val == 'n'
            &&& option.has_arg == WOptionArgument::RequiredArgument <==> option.name == "level"@
                || option.name == "job-control"@
        }),
{
    reveal_strlit("help");
    reveal_strlit("current-filename");
    reveal_strlit("current-line-number");
    reveal_strlit("filename");
    reveal_strlit("fish-path");
    reveal_strlit("is-block");
    reveal_strlit("is-command-substitution");
    reveal_strlit("is-full-job-control");
    reveal_strlit("is-interactive");
    reveal_strlit("is-interactive-job-control");
    reveal_strlit("is-login");
    reveal_strlit("is-no-job-control");
    reveal_strlit("job-control");
    reveal_strlit("level");
    reveal_strlit("line");
    reveal_strlit("line-number");
    reveal_strlit("print-stack-trace");
    assert("job-control"@[0] == 'j' && "line-number"@[0] == 'l');
    assert("help"@[0] == 'h' && "line"@[0] == 'l');
    assert("help"@.len() == 4);
    assert("current-filename"@.len() == 16);
    assert("current-line-number"@.len() == 19);
    assert("filename"@.len() == 8);
    assert("fish-path"@.len() == 9);
    assert("is-block"@.len() == 8);
    assert("is-command-substitution"@.len() == 23);
    assert("is-full-job-control"@.len() == 19);
    assert("is-interactive"@.len() == 14);
    assert("is-interactive-job-control"@.len() == 26);
    assert("is-login"@.len() == 8);
    assert("is-no-job-control"@.len() == 17);
    assert("job-control"@.len() == 11);
    assert("level"@.len() == 5);
    assert("line"@.len() == 4);
    assert("line-number"@.len() == 11);
    assert("print-stack-trace"@.len() == 17);
}

/// An option that chooses a subcommand does so, and does nothing else, if none has been chosen.
pub proof fn law_choosing(
    messages: Messages,
    opts: StatusCmdOpts,
    cmd: Seq<char>,
    val: char,
    arg: Option<Seq<char>>,
    sub_cmd: StatusCmd,
)
    requires
        option_cmd(val) == Some(sub_cmd),
        opts.status_cmd == StatusCmd::STATUS_UNDEF,
    ensures
        with_option(messages, opts, cmd, val, arg) matches Ok(more) && more.status_cmd == sub_cmd
            && more.level == opts.level && more.new_job_control_mode == opts.new_job_control_mode
            && more.print_help == opts.print_help,
{
}

/// The option for help asks for help, and does nothing else.
pub proof fn law_asking_for_help(
    messages: Messages,
    opts: StatusCmdOpts,
    cmd: Seq<char>,
    arg: Option<Seq<char>>,
)
    ensures
        with_option(messages, opts, cmd, 'h', arg) matches Ok(more) && more.print_help
            && more.status_cmd == opts.status_cmd && more.level == opts.level
            && more.new_job_control_mode == opts.new_job_control_mode,
{
}

/// The option for job control chooses to set the mode that its argument names, and does nothing
/// else; where the argument names none, or another choice has been made, it is refused.
pub proof fn law_giving_a_mode(
    messages: Messages,
    opts: StatusCmdOpts,
    cmd: Seq<char>,
    arg: Seq<char>,
)
    ensures
        opts.status_cmd == StatusCmd::STATUS_UNDEF && JobControl::named(arg) is Some ==> (
        with_option(messages, opts, cmd, 'j', Some(arg)) matches Ok(more)
            && more.new_job_control_mode == JobControl::named(arg) && more.status_cmd
            == StatusCmd::STATUS_SET_JOB_CONTROL && more.level == opts.level && more.print_help
            == opts.print_help),
        opts.status_cmd == StatusCmd::STATUS_UNDEF && JobControl::named(arg) is None ==> (
        with_option(messages, opts, cmd, 'j', Some(arg)) matches Err(refusal) && refusal.code == 1
            && refusal.message == shared::invalid_job_control_mode(messages, cmd, arg)),
        opts.status_cmd != StatusCmd::STATUS_UNDEF ==> (with_option(
            messages,
            opts,
            cmd,
            'j',
            Some(arg),
        ) matches Err(refusal) && refusal.code == 1 && refusal.opts == opts),
{
}

/// The option for the level takes the number that its argument reads as, and does nothing else;
/// what is no number, or cannot be a level, is refused.
pub proof fn law_giving_a_level(
    messages: Messages,
    opts: StatusCmdOpts,
    cmd: Seq<char>,
    arg: Seq<char>,
)
    ensures
        ({
            let result = with_option(messages, opts, cmd, 'L', Some(arg));
            match wcstoi::read(arg) {
                Ok(n) => if n >= 0 {
                    result matches Ok(more) && more.level == n && more.status_cmd
                        == opts.status_cmd && more.new_job_control_mode
                        == opts.new_job_control_mode && more.print_help == opts.print_help
                } else {
                    result matches Err(refusal) && refusal.code == 2 && refusal.opts == opts
                        && refusal.message == shared::invalid_level(messages, cmd, arg)
                },
                Err(wcstoi::Error::Overflow) => result matches Err(refusal) && refusal.code == 2
                    && refusal.opts == opts && refusal.message == shared::invalid_level(
                    messages,
                    cmd,
                    arg,
                ),
                Err(_) => result matches Err(refusal) && refusal.code == 2 && refusal.opts == opts
                    && refusal.message == shared::not_number(messages, cmd, arg),
            }
        }),
{
}

/// The options are read one after the other: what the first comes to is what the next begins with.
/// A word that cannot be read ends the reading and is complained about, and so does an option
/// that is refused.
pub proof fn law_options_are_read_in_turn(
    messages: Messages,
    cmd: Seq<char>,
    scan: Scan,
    opts: StatusCmdOpts,
)
    requires
        scan.valid(),
    ensures
        ({
            let read = parsed(messages, cmd, scan, opts);
            match wgetopt::next(option_table(), scan) {
                Step::End { argv, optind } => read.code == 0 && read.opts == opts && read.optind
                    == Some(optind) && read.argv == argv && read.written == Written::nothing(),
                Step::Rejected { val, after } => {
                    let word = after.argv[after.woptind - 1];
                    &&& read.code == 2
                    &&& read.opts == opts
                    &&& read.optind is None
                    &&& read.argv == after.argv
                    &&& read.written.out.len() == 0
                    &&& read.written.err.len() == 0
                    &&& read.written.requests == seq![
                        if val == ':' {
                            Request::MissingArgument { cmd, opt: word, print_hints: false }
                        } else {
                            Request::UnknownOption { cmd, opt: word, print_hints: false }
                        },
                    ]
                },
                Step::Option { val, arg, after } => match with_option(
                    messages,
                    opts,
                    cmd,
                    val,
                    arg,
                ) {
                    Ok(more) => read == parsed(messages, cmd, after, more),
                    Err(refusal) => read.code == refusal.code && read.opts == refusal.opts
                        && read.optind is None && read.argv == after.argv
                        && read.written.out.len() == 0 && read.written.err == refusal.message
                        && read.written.requests.len() == 0,
                },
            }
        }),
{
    wgetopt::law_reading_leads_on(option_table(), scan);
    law_options_are_known(scan);
    let read = parsed(messages, cmd, scan, opts);
    match wgetopt::next(option_table(), scan) {
        Step::End { argv, optind } => {
            assert(read.optind == Some(optind));
        },
        Step::Rejected { val, after } => {
            assert(read.written.requests.len() == 1);
            assert(read.written.err.len() == 0);
        },
        Step::Option { val, arg, after } => match with_option(messages, opts, cmd, val, arg) {
            Ok(more) => {
                assert(read == parsed(messages, cmd, after, more));
            },
            Err(refusal) => {
                assert(read.written.err == refusal.message);
            },
        },
    }
}

/// Whether `group` gives the argument `arg` to the option with the given letter and name, in one
/// of the four ways in which that can be done.
pub open spec fn gives(
    group: Seq<Seq<char>>,
    letter: char,
    name: Seq<char>,
    arg: Seq<char>,
) -> bool {
    ||| group == seq![seq!['-', letter], arg]
    ||| arg.len() > 0 && group == seq![seq!['-', letter] + arg]
    ||| group == seq![seq!['-', '-'] + name, arg]
    ||| group == seq![seq!['-', '-'] + name + (seq!['='] + arg)]
}

/// The options that take an argument take it from the same word or from the next one, and go by
/// their letter or by their name.
pub proof fn law_arguments_are_taken(group: Seq<Seq<char>>, arg: Seq<char>)
    ensures
        gives(group, 'j', "job-control"@, arg) ==> wgetopt::is_group(
            option_table(),
            group,
            'j',
            Some(arg),
        ),
        gives(group, 'L', "level"@, arg) ==> wgetopt::is_group(
            option_table(),
            group,
            'L',
            Some(arg),
        ),
{
    if gives(group, 'j', "job-control"@, arg) {
        lemma_gives(group, 'j', 12, arg);
    }
    if gives(group, 'L', "level"@, arg) {
        lemma_gives(group, 'L', 13, arg);
    }
}

proof fn lemma_gives(group: Seq<Seq<char>>, c: char, i: int, arg: Seq<char>)
    requires
        0 <= i < long_option_table().len(),
        gives(group, c, long_option_table()[i].name, arg),
        long_option_table()[i].has_arg == WOptionArgument::RequiredArgument,
        long_option_table()[i].val == c,
        c == 'L' || c == 'j',
    ensures
        wgetopt::is_group(option_table(), group, c, Some(arg)),
{
    let name = long_option_table()[i].name;
    let none: Seq<char> = seq![];
    let alone = seq![none] + group;
    let scan = Scan::start(alone);
    lemma_long_names(i);
    law_option_letters(c);
    wgetopt::law_long_names(long_option_table(), name, i, i);
    assert(alone[1] == group[0]);
    assert(group.len() == 2 ==> alone[2] == group[1]);
    let word = scan.word();
    if group == seq![seq!['-', c], arg] {
        wgetopt::law_clusters(option_table(), scan, 1);
    } else if arg.len() > 0 && group == seq![seq!['-', c] + arg] {
        assert(word.skip(2) =~= arg);
        wgetopt::law_clusters(option_table(), scan, 1);
    } else if group == seq![seq!['-', '-'] + name, arg] {
        assert(word =~= seq!['-', '-'] + name + none);
        wgetopt::law_long_words(option_table(), scan, name, None);
    } else {
        wgetopt::law_long_words(option_table(), scan, name, Some(arg));
    }
}

} // verus!
