//! What holds of `status` as a whole, whatever the command line and the state of the shell.

use vstd::prelude::*;

use crate::cmdline::{
    gives, law_arguments_are_taken, law_giving_a_level, law_giving_a_mode,
    law_long_options_are_found, law_option_letters, law_options_are_read_in_turn,
    law_options_read, long_option_table, option_cmd, option_table, parsed, with_option, Parsed,
    SHORT_OPTIONS,
};
use crate::english;
use crate::features;
use crate::messages::Messages;
use crate::opts::{law_mode_names, JobControl, StatusCmdOpts};
use crate::parser::{law_functions_are_found_by_level, Parser};
use crate::printf;
use crate::printf::Arg;
use crate::shared;
use crate::status;
use crate::status::{answer, outcome, performed, planned, updated, Plan, Reply};
use crate::status_cmd::{law_names_are_no_options, law_names_mean, StatusCmd};
use crate::streams::{Request, Written};
use crate::sys;
use crate::wcstoi;
use crate::wgetopt;
use crate::wgetopt::{Scan, Step, WOptionArgument};
use crate::wutil;

verus! {

/// Whether a subcommand asks a question that is answered by the exit code alone.
pub open spec fn is_question(sub_cmd: StatusCmd) -> bool {
    ||| sub_cmd == StatusCmd::STATUS_IS_BLOCK
    ||| sub_cmd == StatusCmd::STATUS_IS_BREAKPOINT
    ||| sub_cmd == StatusCmd::STATUS_IS_COMMAND_SUB
    ||| sub_cmd == StatusCmd::STATUS_IS_FULL_JOB_CTRL
    ||| sub_cmd == StatusCmd::STATUS_IS_INTERACTIVE
    ||| sub_cmd == StatusCmd::STATUS_IS_INTERACTIVE_JOB_CTRL
    ||| sub_cmd == StatusCmd::STATUS_IS_LOGIN
    ||| sub_cmd == StatusCmd::STATUS_IS_NO_JOB_CTRL
    ||| sub_cmd == StatusCmd::STATUS_TEST_FEATURE
}

/// The number of arguments that a question takes: the question about a feature takes its name.
pub open spec fn question_args(sub_cmd: StatusCmd) -> nat {
    if sub_cmd == StatusCmd::STATUS_TEST_FEATURE {
        1
    } else {
        0
    }
}

/// The question whether the given job control mode holds.
pub open spec fn mode_question(mode: JobControl) -> StatusCmd {
    match mode {
        JobControl::all => StatusCmd::STATUS_IS_FULL_JOB_CTRL,
        JobControl::interactive => StatusCmd::STATUS_IS_INTERACTIVE_JOB_CTRL,
        JobControl::none => StatusCmd::STATUS_IS_NO_JOB_CTRL,
    }
}

/// What the options of a command line come to.
pub open spec fn read_options(messages: Messages, argv: Seq<Seq<char>>) -> Parsed {
    parsed(messages, argv[0], Scan::start(argv), StatusCmdOpts::initial())
}

/// The options that choose `sub_cmd` and nothing else.
pub open spec fn only(sub_cmd: StatusCmd) -> StatusCmdOpts {
    StatusCmdOpts { status_cmd: sub_cmd, ..StatusCmdOpts::initial() }
}

/// A call that does not succeed puts out nothing and changes nothing.
pub proof fn law_failure_leaves_no_trace(argv: Seq<Seq<char>>, parser: Parser)
    requires
        argv.len() >= 1,
        outcome(argv, parser).reply.code != shared::STATUS_CMD_OK,
    ensures
        outcome(argv, parser).reply.written.out.len() == 0,
        updated(parser, outcome(argv, parser).reply) == parser,
{
    law_options_read(parser.messages, argv, StatusCmdOpts::initial());
}

/// The state of the shell changes only where a job control mode is set, and then in nothing but
/// that mode, in silence, and with success.
pub proof fn law_only_the_mode_changes(argv: Seq<Seq<char>>, parser: Parser)
    requires
        argv.len() >= 1,
    ensures
        ({
            let reply = outcome(argv, parser).reply;
            let after = updated(parser, reply);
            &&& after == (Parser { job_control_mode: after.job_control_mode, ..parser })
            &&& reply.new_mode is Some ==> {
                &&& planned(parser.messages, argv).plan matches Plan::Perform { opts, optind }
                &&& opts.status_cmd == StatusCmd::STATUS_SET_JOB_CONTROL
                &&& reply.code == shared::STATUS_CMD_OK
                &&& reply.written == Written::nothing()
            }
        }),
{
    law_options_read(parser.messages, argv, StatusCmdOpts::initial());
}

/// In every state, of the three questions about job control exactly one is answered with yes:
/// the one that asks for the mode that holds.
pub proof fn law_one_mode_holds(cmd: Seq<char>, parser: Parser, mode: JobControl)
    ensures
        (performed(cmd, only(mode_question(mode)), seq![], parser).code == shared::STATUS_CMD_OK)
            == (parser.job_control_mode == mode),
{
}

/// A job control mode that was set is the one that holds from then on.
pub proof fn law_mode_set_is_seen(
    argv: Seq<Seq<char>>,
    parser: Parser,
    mode: JobControl,
    cmd: Seq<char>,
)
    requires
        argv.len() >= 1,
        outcome(argv, parser).reply.new_mode == Some(mode),
    ensures
        performed(
            cmd,
            only(mode_question(mode)),
            seq![],
            updated(parser, outcome(argv, parser).reply),
        ) == Reply::yes_or_no(true),
{
}

/// A job control mode can be given to the flag or to the subcommand: the same is done.
pub proof fn law_flag_and_argument_agree(
    cmd: Seq<char>,
    opts: StatusCmdOpts,
    parser: Parser,
    arg: Seq<char>,
    mode: JobControl,
)
    requires
        opts.status_cmd == StatusCmd::STATUS_SET_JOB_CONTROL,
        JobControl::named(arg) == Some(mode),
    ensures
        performed(
            cmd,
            StatusCmdOpts { new_job_control_mode: Some(mode), ..opts },
            seq![],
            parser,
        ) == performed(
            cmd,
            StatusCmdOpts { new_job_control_mode: None, ..opts },
            seq![arg],
            parser,
        ),
{
}

/// Questions are answered by the exit code: nothing is put out for them, nothing is changed, and
/// where a question has the arguments it takes, nothing at all is written.
pub proof fn law_questions_are_silent(
    cmd: Seq<char>,
    opts: StatusCmdOpts,
    args: Seq<Seq<char>>,
    parser: Parser,
)
    requires
        is_question(opts.status_cmd),
    ensures
        performed(cmd, opts, args, parser).written.out.len() == 0,
        args.len() == question_args(opts.status_cmd) ==> performed(
            cmd,
            opts,
            args,
            parser,
        ).written == Written::nothing(),
        updated(parser, performed(cmd, opts, args, parser)) == parser,
{
}

/// Whoever asks for help, with options that can be read, gets help and nothing else, whatever
/// the operands are.
pub proof fn law_help_comes_first(argv: Seq<Seq<char>>, parser: Parser)
    requires
        argv.len() >= 1,
        read_options(parser.messages, argv).code == shared::STATUS_CMD_OK,
        read_options(parser.messages, argv).opts.print_help,
    ensures
        outcome(argv, parser).reply == (Reply {
            code: shared::STATUS_CMD_OK,
            written: Written::request(Request::PrintHelp { cmd: argv[0] }),
            new_mode: None,
        }),
{
}

/// A subcommand chosen by an option cannot be joined by one that is given as an operand.
pub proof fn law_option_and_operand_exclude(argv: Seq<Seq<char>>, parser: Parser)
    requires
        argv.len() >= 1,
        ({
            let read = read_options(parser.messages, argv);
            &&& read.code == shared::STATUS_CMD_OK
            &&& !read.opts.print_help
            &&& read.opts.status_cmd != StatusCmd::STATUS_UNDEF
            &&& read.optind->0 < argv.len()
            &&& StatusCmd::named(read.argv[read.optind->0]) matches Some(operand)
            &&& operand != StatusCmd::STATUS_UNDEF
        }),
    ensures
        ({
            let read = read_options(parser.messages, argv);
            let operand = StatusCmd::named(read.argv[read.optind->0])->0;
            outcome(argv, parser).reply == Reply::failure(
                shared::STATUS_CMD_ERROR,
                shared::combo2_exclusive(
                    parser.messages,
                    argv[0],
                    read.opts.status_cmd.name(),
                    operand.name(),
                ),
            )
        }),
{
}

/// What is performed is well chosen: the level is not negative, and a job control mode has been
/// taken from an option only if it is to be set.
pub proof fn law_plans_are_valid(messages: Messages, argv: Seq<Seq<char>>)
    requires
        argv.len() >= 1,
        planned(messages, argv).plan is Perform,
    ensures
        planned(messages, argv).plan->opts.valid(),
        planned(messages, argv).written == Written::nothing(),
{
    law_options_read(messages, argv, StatusCmdOpts::initial());
}

/// Without options and operands no subcommand is chosen, and the overview is given.
pub proof fn law_bare_call_gives_overview(cmd: Seq<char>, parser: Parser)
    ensures
        outcome(seq![cmd], parser).reply == answer(cmd, StatusCmdOpts::initial(), parser),
{
    let argv = seq![cmd];
    let scan = Scan::start(argv);
    assert(scan.settled().argv =~= argv);
    assert(argv.skip(1).len() == 0);
}

/// A name of a subcommand, given alone, performs that subcommand, and without arguments.
pub proof fn law_names_perform(cmd: Seq<char>, name: Seq<char>, parser: Parser)
    requires
        StatusCmd::named(name) is Some,
        StatusCmd::named(name) != Some(StatusCmd::STATUS_UNDEF),
    ensures
        outcome(seq![cmd, name], parser).reply == performed(
            cmd,
            only(StatusCmd::named(name)->0),
            seq![],
            parser,
        ),
{
    let argv = seq![cmd, name];
    let scan = Scan::start(argv);
    law_names_are_no_options(name);
    assert(scan.settled().argv =~= argv);
    assert(wgetopt::next_option_word(argv, 2) == 2);
    assert(wgetopt::next_option_word(argv, 1) == 2);
    assert(wgetopt::next(option_table(), scan) == (Step::End { argv, optind: 1 }));
    assert(argv.skip(2) =~= seq![]);
}

/// An option that chooses a subcommand, spelled out in full and given alone, performs that
/// subcommand, just as a name of the subcommand does.
pub proof fn law_flags_perform(cmd: Seq<char>, i: int, parser: Parser)
    requires
        0 <= i < long_option_table().len(),
        long_option_table()[i].has_arg == WOptionArgument::NoArgument,
        long_option_table()[i].val != 'h',
    ensures
        option_cmd(long_option_table()[i].val) is Some,
        outcome(seq![cmd, "--"@ + long_option_table()[i].name], parser).reply == performed(
            cmd,
            only(option_cmd(long_option_table()[i].val)->0),
            seq![],
            parser,
        ),
{
    let argv = seq![cmd, "--"@ + long_option_table()[i].name];
    let scan = Scan::start(argv);
    let sub_cmd = option_cmd(long_option_table()[i].val)->0;
    law_long_options_are_found(scan, i);
    assert(scan.settled().argv =~= argv);
    let after = scan.settled().at_option().past(1);
    assert(after.argv =~= argv && after.woptind == 2);
    wgetopt::law_reading_leads_on(option_table(), scan);
    assert(after.settled().argv =~= argv);
    assert(wgetopt::next_option_word(argv, 2) == 2);
    assert(wgetopt::next(option_table(), after) == (Step::End { argv, optind: 2 }));
    assert(parsed(parser.messages, cmd, scan, StatusCmdOpts::initial()) == parsed(
        parser.messages,
        cmd,
        after,
        only(sub_cmd),
    ));
    assert(argv.skip(2) =~= seq![]);
}

/// A letter that chooses a subcommand, given alone after a dash, performs that subcommand, just
/// as a name of the subcommand does.
pub proof fn law_letters_perform(cmd: Seq<char>, c: char, sub_cmd: StatusCmd, parser: Parser)
    requires
        wgetopt::letter(SHORT_OPTIONS@, c) == Some(WOptionArgument::NoArgument),
        option_cmd(c) == Some(sub_cmd),
    ensures
        outcome(seq![cmd, seq!['-', c]], parser).reply == performed(
            cmd,
            only(sub_cmd),
            seq![],
            parser,
        ),
{
    let argv = seq![cmd, seq!['-', c]];
    let scan = Scan::start(argv);
    assert(scan.settled().argv =~= argv);
    assert(wgetopt::is_option_word(argv[1]));
    reveal_strlit("--");
    assert(argv[1][1] != '-' && argv[1] != "--"@) by {
        assert(option_cmd('-') is None);
    }
    let here = scan.settled().at_option();
    assert(here.woptind == 1);
    let after = here.past(1);
    assert(wgetopt::next(option_table(), scan) == (Step::Option { val: c, arg: None, after }));
    wgetopt::law_reading_leads_on(option_table(), scan);
    assert(after.settled().argv =~= argv);
    assert(wgetopt::next_option_word(argv, 2) == 2);
    assert(wgetopt::next(option_table(), after) == (Step::End { argv, optind: 2 }));
    assert(c != 'h' && c != 'L' && c != 'j');
    assert(parsed(parser.messages, cmd, scan, StatusCmdOpts::initial()) == parsed(
        parser.messages,
        cmd,
        after,
        only(sub_cmd),
    ));
    assert(argv.skip(2) =~= seq![]);
}

/// For each question the exit code is zero exactly if what it asks for holds, and else one,
/// whatever else holds of the shell.
pub proof fn law_questions_are_answered(cmd: Seq<char>, opts: StatusCmdOpts, parser: Parser)
    ensures
        ({
            let code = performed(cmd, opts, seq![], parser).code;
            let sub_cmd = opts.status_cmd;
            &&& sub_cmd == StatusCmd::STATUS_IS_LOGIN ==> code == if parser.login {
                0i32
            } else {
                1
            }
            &&& sub_cmd == StatusCmd::STATUS_IS_INTERACTIVE ==> code
                == if parser.interactive_session {
                0i32
            } else {
                1
            }
            &&& sub_cmd == StatusCmd::STATUS_IS_COMMAND_SUB ==> code == if parser.is_subshell {
                0i32
            } else {
                1
            }
            &&& sub_cmd == StatusCmd::STATUS_IS_BLOCK ==> code == if parser.is_block {
                0i32
            } else {
                1
            }
            &&& sub_cmd == StatusCmd::STATUS_IS_BREAKPOINT ==> code == if parser.is_breakpoint {
                0i32
            } else {
                1
            }
            &&& sub_cmd == StatusCmd::STATUS_IS_FULL_JOB_CTRL ==> code
                == if parser.job_control_mode == JobControl::all {
                0i32
            } else {
                1
            }
            &&& sub_cmd == StatusCmd::STATUS_IS_INTERACTIVE_JOB_CTRL ==> code
                == if parser.job_control_mode == JobControl::interactive {
                0i32
            } else {
                1
            }
            &&& sub_cmd == StatusCmd::STATUS_IS_NO_JOB_CTRL ==> code
                == if parser.job_control_mode == JobControl::none {
                0i32
            } else {
                1
            }
        }),
{
}

/// The question about a feature is answered by the last feature of that name: zero if it is set,
/// one if it is not, two if there is none.
pub proof fn law_feature_question_is_answered(
    cmd: Seq<char>,
    opts: StatusCmdOpts,
    name: Seq<char>,
    parser: Parser,
)
    requires
        opts.status_cmd == StatusCmd::STATUS_TEST_FEATURE,
    ensures
        forall|i: int|
            0 <= i < parser.features@.len() && (#[trigger] parser.features@[i]).name@ == name && (
            forall|j: int|
                i < j < parser.features@.len() ==> (#[trigger] parser.features@[j]).name@ != name)
                ==> performed(cmd, opts, seq![name], parser).code
                == if parser.features@[i].enabled {
                0i32
            } else {
                1i32
            },
        (forall|i: int|
            0 <= i < parser.features@.len() ==> (#[trigger] parser.features@[i]).name@ != name)
            ==> performed(cmd, opts, seq![name], parser).code == 2,
{
    let listed = parser.features@;
    features::law_features_are_recognized(listed, name);
    assert forall|i: int|
        0 <= i < listed.len() && (#[trigger] listed[i]).name@ == name && (forall|j: int|
            i < j < listed.len() ==> (#[trigger] listed[j]).name@ != name) implies performed(
        cmd,
        opts,
        seq![name],
        parser,
    ).code == if listed[i].enabled {
        0i32
    } else {
        1i32
    } by {
        features::law_last_feature_counts(listed, name, i);
    }
}

/// The number of arguments that a subcommand takes, if it matters.
pub open spec fn takes(opts: StatusCmdOpts) -> Option<nat> {
    match opts.status_cmd {
        StatusCmd::STATUS_FEATURES => None,
        StatusCmd::STATUS_TEST_FEATURE => Some(1),
        StatusCmd::STATUS_SET_JOB_CONTROL => if opts.new_job_control_mode is Some {
            Some(0)
        } else {
            Some(1)
        },
        _ => Some(0),
    }
}

/// With another number of arguments than it takes, a subcommand is not performed: the exit code
/// is two, the message tells the numbers, and nothing is put out or changed. Only the list of the
/// features does not care.
pub proof fn law_arguments_are_counted(
    cmd: Seq<char>,
    opts: StatusCmdOpts,
    args: Seq<Seq<char>>,
    parser: Parser,
)
    ensures
        takes(opts) matches Some(n) && n != args.len() ==> {
            let reply = performed(cmd, opts, args, parser);
            &&& reply.code == 2
            &&& reply.new_mode is None
            &&& reply.written.out.len() == 0
            &&& reply.written.err == shared::arg_count2(
                parser.messages,
                cmd,
                opts.status_cmd.name(),
                takes(opts)->0,
                args.len(),
            )
        },
        takes(opts) is None ==> performed(cmd, opts, args, parser) == performed(
            cmd,
            opts,
            seq![],
            parser,
        ),
{
}

/// What the subcommands print that print the file that is being run: all of its path, its base
/// name or its directory; and where there is no file, what the standard input is called.
pub proof fn law_file_is_printed(cmd: Seq<char>, opts: StatusCmdOpts, parser: Parser)
    ensures
        ({
            let path = parser.current_filename@;
            let sub_cmd = opts.status_cmd;
            let reply = performed(cmd, opts, seq![], parser);
            let line = |s: Seq<char>| Reply::output(status::text_line(parser.messages, s));
            &&& sub_cmd == StatusCmd::STATUS_FILENAME && path.len() > 0 ==> reply == line(path)
            &&& sub_cmd == StatusCmd::STATUS_BASENAME && path.len() > 0 ==> reply == line(
                wutil::basename(path),
            )
            &&& sub_cmd == StatusCmd::STATUS_DIRNAME && path.len() > 0 ==> reply == line(
                wutil::dirname(path),
            )
            &&& (sub_cmd == StatusCmd::STATUS_FILENAME || sub_cmd == StatusCmd::STATUS_BASENAME
                || sub_cmd == StatusCmd::STATUS_DIRNAME) && path.len() == 0 ==> reply == line(
                parser.messages.standard_input@,
            )
        }),
{
}

/// Where a path is a prefix that is empty or ends with a slash, a component and slashes, that
/// component is printed as the base name of the file that is being run.
pub proof fn law_basename_is_printed(
    cmd: Seq<char>,
    opts: StatusCmdOpts,
    parser: Parser,
    prefix: Seq<char>,
    name: Seq<char>,
    slashes: Seq<char>,
)
    requires
        parser.messages.is_english(),
        opts.status_cmd == StatusCmd::STATUS_BASENAME,
        parser.current_filename@ == prefix + name + slashes,
        prefix.len() == 0 || prefix.last() == '/',
        wutil::is_component(name),
        wutil::all_slashes(slashes),
    ensures
        performed(cmd, opts, seq![], parser).written.out == name.push('\n'),
        performed(cmd, opts, seq![], parser).code == 0,
{
    wutil::law_basename_is_last_component(prefix, name, slashes);
    english::law_english_text_line(parser.messages, name);
    reveal_strlit("\n");
    assert(name + "\n"@ =~= name.push('\n'));
}

/// The function that is printed is the one at the level asked for; where there is none, that is
/// said.
pub proof fn law_function_is_printed(cmd: Seq<char>, opts: StatusCmdOpts, parser: Parser)
    requires
        opts.status_cmd == StatusCmd::STATUS_FUNCTION,
    ensures
        ({
            let names = parser.func_names@;
            let reply = performed(cmd, opts, seq![], parser);
            &&& forall|i: int|
                0 <= i < names.len() && (#[trigger] names[i]).0 == opts.level && (forall|j: int|
                    0 <= j < i ==> (#[trigger] names[j]).0 != opts.level) ==> reply
                    == Reply::output(status::text_line(parser.messages, names[i].1@))
            &&& (forall|i: int| 0 <= i < names.len() ==> (#[trigger] names[i]).0 != opts.level)
                ==> reply == Reply::output(
                status::text_line(parser.messages, parser.messages.not_a_function@),
            )
        }),
{
    law_functions_are_found_by_level(parser.func_names@, opts.level);
}

/// What the subcommands print that print something of the shell as it is.
pub proof fn law_state_is_printed(cmd: Seq<char>, opts: StatusCmdOpts, parser: Parser)
    ensures
        ({
            let sub_cmd = opts.status_cmd;
            let reply = performed(cmd, opts, seq![], parser);
            let out = reply.written.out;
            &&& sub_cmd == StatusCmd::STATUS_LINE_NUMBER ==> reply == Reply::output(
                status::number_line(parser.messages, parser.lineno as int),
            )
            &&& sub_cmd == StatusCmd::STATUS_STACK_TRACE ==> reply == Reply::output(
                parser.stack_trace@,
            )
            &&& sub_cmd == StatusCmd::STATUS_CURRENT_CMD && parser.status_vars_command@.len() > 0
                ==> out == parser.status_vars_command@.push('\n')
            &&& sub_cmd == StatusCmd::STATUS_CURRENT_CMD && parser.status_vars_command@.len() == 0
                ==> out == seq!['f', 'i', 's', 'h', '\n']
            &&& sub_cmd == StatusCmd::STATUS_CURRENT_COMMANDLINE ==> out
                == parser.status_vars_commandline@.push('\n')
            &&& sub_cmd == StatusCmd::STATUS_CURRENT_CMD || sub_cmd
                == StatusCmd::STATUS_CURRENT_COMMANDLINE ==> reply == Reply::output(out)
            &&& sub_cmd == StatusCmd::STATUS_FEATURES ==> reply == Reply::output(
                features::feature_list(parser.messages, parser.features@),
            )
        }),
{
    reveal_strlit("\n");
    reveal_strlit("fish");
    assert("fish"@ + "\n"@ =~= seq!['f', 'i', 's', 'h', '\n']);
    assert(parser.status_vars_command@ + "\n"@ =~= parser.status_vars_command@.push('\n'));
    assert(parser.status_vars_commandline@ + "\n"@ =~= parser.status_vars_commandline@.push(
        '\n',
    ));
}

/// What an answer with output is: the exit code is zero, and the text stands on the output stream
/// alone.
pub proof fn law_output_is_all(text: Seq<char>)
    ensures
        Reply::output(text).code == 0,
        Reply::output(text).new_mode is None,
        Reply::output(text).written.out == text,
        Reply::output(text).written.err.len() == 0,
        Reply::output(text).written.requests.len() == 0,
{
}

/// The path of the running shell: its canonical form if it is absolute and there is something
/// there, and else as it is. Where it is not known the reason is given, and the exit code is zero
/// all the same.
pub proof fn law_shell_path_is_printed(cmd: Seq<char>, opts: StatusCmdOpts, parser: Parser)
    requires
        opts.status_cmd == StatusCmd::STATUS_FISH_PATH,
    ensures
        ({
            let shell = parser.executable;
            let reply = performed(cmd, opts, seq![], parser);
            &&& reply.code == 0
            &&& reply.new_mode is None
            &&& reply.written.requests.len() == 0
            &&& shell.path@.len() > 0 ==> reply.written.err.len() == 0
            &&& shell.path@.len() == 0 ==> reply.written.err == shared::no_executable_path(
                parser.messages,
                cmd,
                sys::errno_message(shell.errno),
            )
            &&& shell.path@.len() > 0 && shell.path@[0] == '/' && shell.access == 0
                && shell.real_path is Some ==> reply.written.out == shell.real_path->0@.push('\n')
            &&& shell.path@.len() == 0 || shell.path@[0] != '/' || shell.access != 0
                || shell.real_path is None ==> reply.written.out == shell.path@.push('\n')
        }),
{
    reveal_strlit("\n");
    assert(parser.executable.path@ + "\n"@ =~= parser.executable.path@.push('\n'));
    if parser.executable.real_path is Some {
        let canonical = parser.executable.real_path->0@;
        assert(canonical + "\n"@ =~= canonical.push('\n'));
    }
}

/// The overview is what there is to say of the login, the line on job control with the words for
/// the mode that holds where its directive stands, and the calls that led here.
pub proof fn law_overview_is_printed(
    cmd: Seq<char>,
    opts: StatusCmdOpts,
    parser: Parser,
    before: Seq<char>,
    behind: Seq<char>,
)
    requires
        opts.status_cmd == StatusCmd::STATUS_UNDEF,
        parser.messages.job_control@ == before + "%ls"@ + behind,
        !before.contains('%'),
        !behind.contains('%'),
    ensures
        ({
            let messages = parser.messages;
            let login = if parser.login {
                messages.login_shell@
            } else {
                messages.no_login_shell@
            };
            let mode = match parser.job_control_mode {
                JobControl::all => messages.mode_all@,
                JobControl::interactive => messages.mode_interactive@,
                JobControl::none => messages.mode_none@,
            };
            performed(cmd, opts, seq![], parser) == Reply::output(
                login + (before + mode + behind) + parser.stack_trace@,
            )
        }),
{
    let mode = match parser.job_control_mode {
        JobControl::all => parser.messages.mode_all@,
        JobControl::interactive => parser.messages.mode_interactive@,
        JobControl::none => parser.messages.mode_none@,
    };
    let args = seq![Arg::Text(mode)];
    let pieces = seq![before, behind];
    let directives = seq!["%ls"@];
    printf::law_directives_give_way_to_arguments(pieces, directives, args);
    reveal_with_fuel(printf::woven, 2);
    assert(pieces.skip(1)[0] == behind);
    assert(printf::all_shown(args)[0] == mode);
}

/// One option and operands: the options come to what that option does, and the operands are what
/// is left.
proof fn lemma_one_option(
    messages: Messages,
    cmd: Seq<char>,
    group: Seq<Seq<char>>,
    words: Seq<Seq<char>>,
    val: char,
    arg: Option<Seq<char>>,
)
    requires
        wgetopt::is_group(option_table(), group, val, arg),
        wgetopt::all_operands(words),
    ensures
        ({
            let argv = seq![cmd] + group + words;
            let read = read_options(messages, argv);
            match with_option(messages, StatusCmdOpts::initial(), cmd, val, arg) {
                Ok(more) => read == (Parsed {
                    code: 0,
                    opts: more,
                    optind: Some(1 + group.len() as int),
                    written: Written::nothing(),
                    argv,
                }),
                Err(refusal) => read == (Parsed {
                    code: refusal.code,
                    opts: refusal.opts,
                    optind: None,
                    written: Written::on_err(refusal.message),
                    argv,
                }),
            }
        }),
{
    let none: Seq<Seq<char>> = seq![];
    let argv = seq![cmd] + group + words;
    let n = 1 + group.len() as int;
    wgetopt::law_options_read_the_same_anywhere(
        option_table(),
        seq![cmd],
        none,
        group,
        words,
        val,
        arg,
    );
    assert(seq![cmd] + none + group + words =~= argv);
    wgetopt::law_operands_are_left(option_table(), seq![cmd] + group, words);
    let after = Scan { argv, first: 1, last: 1, woptind: n, pos: 0 };
    let there = Scan { argv, first: n, last: n, woptind: n, pos: 0 };
    assert(after.settled().argv =~= argv);
    assert(there.settled().argv =~= argv);
    assert(wgetopt::next(option_table(), after) == wgetopt::next(option_table(), there));
    let opts = StatusCmdOpts::initial();
    law_options_are_read_in_turn(messages, cmd, Scan::start(argv), opts);
    if let Ok(more) = with_option(messages, opts, cmd, val, arg) {
        law_options_are_read_in_turn(messages, cmd, after, more);
    }
}

/// However a job control mode is given, by its letter or its name, in the same word or the next,
/// or as the argument of the subcommand: the mode that is set is the one that goes by the name
/// given, in silence and with success.
pub proof fn law_mode_given_is_set(
    cmd: Seq<char>,
    group: Seq<Seq<char>>,
    arg: Seq<char>,
    mode: JobControl,
    parser: Parser,
)
    requires
        JobControl::named(arg) == Some(mode),
        gives(group, 'j', "job-control"@, arg) || group == seq!["job-control"@, arg],
    ensures
        ({
            let reply = outcome(seq![cmd] + group, parser).reply;
            &&& reply.code == 0
            &&& reply.written == Written::nothing()
            &&& reply.new_mode == JobControl::named(arg)
            &&& updated(parser, reply).job_control_mode == mode
        }),
{
    let none: Seq<Seq<char>> = seq![];
    let argv = seq![cmd] + group;
    law_arguments_are_taken(group, arg);
    law_giving_a_mode(parser.messages, StatusCmdOpts::initial(), cmd, arg);
    law_mode_names(arg);
    assert(argv + none =~= argv);
    if gives(group, 'j', "job-control"@, arg) {
        lemma_one_option(parser.messages, cmd, group, none, 'j', Some(arg));
        assert(argv.skip(1 + group.len() as int) =~= none);
    } else {
        reveal_strlit("full");
        reveal_strlit("interactive");
        reveal_strlit("none");
        law_names_mean("job-control"@);
        assert(arg[0] != '-');
        let words = seq![arg];
        law_operands_become_arguments(cmd, "job-control"@, words, parser);
        assert(seq![cmd, "job-control"@] + words =~= argv);
    }
}

/// The flag and the subcommand set the same mode.
pub proof fn law_flag_and_subcommand_set_the_same(
    cmd: Seq<char>,
    group: Seq<Seq<char>>,
    arg: Seq<char>,
    parser: Parser,
)
    requires
        JobControl::named(arg) is Some,
        gives(group, 'j', "job-control"@, arg),
    ensures
        outcome(seq![cmd] + group, parser).reply == outcome(
            seq![cmd, "job-control"@, arg],
            parser,
        ).reply,
{
    let mode = JobControl::named(arg)->0;
    law_mode_given_is_set(cmd, group, arg, mode, parser);
    law_mode_given_is_set(cmd, seq!["job-control"@, arg], arg, mode, parser);
    assert(seq![cmd] + seq!["job-control"@, arg] =~= seq![cmd, "job-control"@, arg]);
}

/// A mode that goes by no name is refused, with exit code one and a message, and none is set.
pub proof fn law_mode_unknown_is_refused(
    cmd: Seq<char>,
    group: Seq<Seq<char>>,
    arg: Seq<char>,
    parser: Parser,
)
    requires
        JobControl::named(arg) is None,
        gives(group, 'j', "job-control"@, arg) || (group == seq!["job-control"@, arg]
            && !wgetopt::is_option_word(arg)),
    ensures
        ({
            let reply = outcome(seq![cmd] + group, parser).reply;
            &&& reply.code == 1
            &&& reply.new_mode is None
            &&& reply.written == Written::on_err(
                shared::invalid_job_control_mode(parser.messages, cmd, arg),
            )
        }),
{
    let none: Seq<Seq<char>> = seq![];
    let argv = seq![cmd] + group;
    law_arguments_are_taken(group, arg);
    law_giving_a_mode(parser.messages, StatusCmdOpts::initial(), cmd, arg);
    assert(argv + none =~= argv);
    if gives(group, 'j', "job-control"@, arg) {
        lemma_one_option(parser.messages, cmd, group, none, 'j', Some(arg));
    } else {
        law_names_mean("job-control"@);
        let words = seq![arg];
        law_operands_become_arguments(cmd, "job-control"@, words, parser);
        assert(seq![cmd, "job-control"@] + words =~= argv);
    }
}

/// However a level is given, a subcommand behind it is performed with the number that was given
/// as its level.
pub proof fn law_level_given_is_used(
    cmd: Seq<char>,
    group: Seq<Seq<char>>,
    arg: Seq<char>,
    n: i32,
    name: Seq<char>,
    args: Seq<Seq<char>>,
    parser: Parser,
)
    requires
        gives(group, 'L', "level"@, arg),
        wcstoi::read(arg) == Ok::<i32, wcstoi::Error>(n),
        n >= 0,
        StatusCmd::named(name) is Some,
        StatusCmd::named(name) != Some(StatusCmd::STATUS_UNDEF),
        wgetopt::all_operands(args),
    ensures
        outcome(seq![cmd] + group + (seq![name] + args), parser).reply == performed(
            cmd,
            StatusCmdOpts { level: n, ..only(StatusCmd::named(name)->0) },
            args,
            parser,
        ),
{
    let words = seq![name] + args;
    let argv = seq![cmd] + group + words;
    law_arguments_are_taken(group, arg);
    law_giving_a_level(parser.messages, StatusCmdOpts::initial(), cmd, arg);
    law_names_are_no_options(name);
    assert forall|i: int| 0 <= i < words.len() implies !wgetopt::is_option_word(
        #[trigger] words[i],
    ) by {
        if i > 0 {
            assert(words[i] == args[i - 1]);
        }
    }
    lemma_one_option(parser.messages, cmd, group, words, 'L', Some(arg));
    let k = 1 + group.len() as int;
    assert(argv[k] == name);
    assert(argv.skip(k + 1) =~= args);
}

/// A name of a subcommand and operands behind it: the subcommand is performed with them as its
/// arguments.
pub proof fn law_operands_become_arguments(
    cmd: Seq<char>,
    name: Seq<char>,
    args: Seq<Seq<char>>,
    parser: Parser,
)
    requires
        StatusCmd::named(name) is Some,
        StatusCmd::named(name) != Some(StatusCmd::STATUS_UNDEF),
        wgetopt::all_operands(args),
    ensures
        outcome(seq![cmd, name] + args, parser).reply == performed(
            cmd,
            only(StatusCmd::named(name)->0),
            args,
            parser,
        ),
{
    let argv = seq![cmd, name] + args;
    let words = seq![name] + args;
    law_names_are_no_options(name);
    assert forall|i: int| 0 <= i < words.len() implies !wgetopt::is_option_word(
        #[trigger] words[i],
    ) by {
        if i > 0 {
            assert(words[i] == args[i - 1]);
        }
    }
    wgetopt::law_operands_are_left(option_table(), seq![cmd], words);
    assert(seq![cmd] + words =~= argv);
    assert(argv[1] == name);
    assert(argv.skip(2) =~= args);
}

/// A first operand that names no subcommand is refused, with exit code two and a message.
pub proof fn law_unknown_names_are_refused(
    cmd: Seq<char>,
    name: Seq<char>,
    args: Seq<Seq<char>>,
    parser: Parser,
)
    requires
        StatusCmd::named(name) is None || StatusCmd::named(name) == Some(StatusCmd::STATUS_UNDEF),
        !wgetopt::is_option_word(name),
        wgetopt::all_operands(args),
    ensures
        ({
            let reply = outcome(seq![cmd, name] + args, parser).reply;
            &&& reply.code == 2
            &&& reply.new_mode is None
            &&& reply.written == Written::on_err(
                shared::invalid_subcmd(parser.messages, cmd, name),
            )
        }),
{
    let argv = seq![cmd, name] + args;
    let words = seq![name] + args;
    assert forall|i: int| 0 <= i < words.len() implies !wgetopt::is_option_word(
        #[trigger] words[i],
    ) by {
        if i > 0 {
            assert(words[i] == args[i - 1]);
        }
    }
    wgetopt::law_operands_are_left(option_table(), seq![cmd], words);
    assert(seq![cmd] + words =~= argv);
    assert(argv[1] == name);
}

/// An option may stand before or behind operands: the answer is the same, whatever follows.
pub proof fn law_options_stand_anywhere(
    cmd: Seq<char>,
    words: Seq<Seq<char>>,
    group: Seq<Seq<char>>,
    behind: Seq<Seq<char>>,
    val: char,
    arg: Option<Seq<char>>,
    parser: Parser,
)
    requires
        wgetopt::is_group(option_table(), group, val, arg),
        wgetopt::all_operands(words),
    ensures
        outcome(seq![cmd] + words + group + behind, parser).reply == outcome(
            seq![cmd] + group + words + behind,
            parser,
        ).reply,
{
    let first = seq![cmd] + words + group + behind;
    let second = seq![cmd] + group + words + behind;
    let (a, b) = wgetopt::law_options_pass_operands(
        option_table(),
        seq![cmd],
        words,
        group,
        behind,
        val,
        arg,
    );
    let messages = parser.messages;
    let opts = StatusCmdOpts::initial();
    wgetopt::law_reading_leads_on(option_table(), Scan::start(first));
    wgetopt::law_reading_leads_on(option_table(), Scan::start(second));
    law_options_are_read_in_turn(messages, cmd, Scan::start(first), opts);
    law_options_are_read_in_turn(messages, cmd, Scan::start(second), opts);
    assert(first[0] == cmd && second[0] == cmd);
    match with_option(messages, opts, cmd, val, arg) {
        Ok(more) => {
            assert(parsed(messages, cmd, a, more) == parsed(messages, cmd, b, more));
        },
        Err(refusal) => {
            assert(read_options(messages, first).written =~= read_options(
                messages,
                second,
            ).written);
            law_options_read(messages, first, opts);
        },
    }
}

/// A word that holds an unknown option, and one that lacks the argument of its option, is
/// complained about: the exit code is two, and nothing else is said or done.
pub proof fn law_bad_words_are_refused(cmd: Seq<char>, word: Seq<char>, c: char, parser: Parser)
    requires
        word == seq!['-', c],
        c != '-' && c != 'c' && c != 'b' && c != 'i' && c != 'l' && c != 'f' && c != 'n' && c != 'h'
            && c != 't',
    ensures
        ({
            let reply = outcome(seq![cmd, word], parser).reply;
            &&& reply.code == 2
            &&& reply.new_mode is None
            &&& reply.written == Written::request(
                if c == 'L' || c == 'j' {
                    Request::MissingArgument { cmd, opt: word, print_hints: false }
                } else {
                    Request::UnknownOption { cmd, opt: word, print_hints: false }
                },
            )
        }),
{
    let argv = seq![cmd, word];
    let scan = Scan::start(argv);
    law_option_letters(c);
    wgetopt::law_clusters(option_table(), scan, 1);
    law_options_are_read_in_turn(parser.messages, cmd, scan, StatusCmdOpts::initial());
    assert(wgetopt::next(option_table(), scan) is Rejected);
    let read = read_options(parser.messages, argv);
    assert(read.written =~= Written::request(
        if c == 'L' || c == 'j' {
            Request::MissingArgument { cmd, opt: word, print_hints: false }
        } else {
            Request::UnknownOption { cmd, opt: word, print_hints: false }
        },
    ));
}

/// Where options come before an operand that names no subcommand, the message is on the word
/// behind the name of the command, which is the first of the options.
pub proof fn law_unknown_names_behind_options(
    cmd: Seq<char>,
    group: Seq<Seq<char>>,
    arg: Seq<char>,
    n: i32,
    name: Seq<char>,
    args: Seq<Seq<char>>,
    parser: Parser,
)
    requires
        gives(group, 'L', "level"@, arg),
        wcstoi::read(arg) == Ok::<i32, wcstoi::Error>(n),
        n >= 0,
        StatusCmd::named(name) is None || StatusCmd::named(name) == Some(StatusCmd::STATUS_UNDEF),
        !wgetopt::is_option_word(name),
        wgetopt::all_operands(args),
    ensures
        ({
            let reply = outcome(seq![cmd] + group + (seq![name] + args), parser).reply;
            &&& reply.code == 2
            &&& reply.new_mode is None
            &&& reply.written == Written::on_err(
                shared::invalid_subcmd(parser.messages, cmd, group[0]),
            )
        }),
{
    let words = seq![name] + args;
    let argv = seq![cmd] + group + words;
    law_arguments_are_taken(group, arg);
    law_giving_a_level(parser.messages, StatusCmdOpts::initial(), cmd, arg);
    assert forall|i: int| 0 <= i < words.len() implies !wgetopt::is_option_word(
        #[trigger] words[i],
    ) by {
        if i > 0 {
            assert(words[i] == args[i - 1]);
        }
    }
    lemma_one_option(parser.messages, cmd, group, words, 'L', Some(arg));
    assert(argv[1 + group.len() as int] == name);
    assert(argv[1] == group[0]);
}

} // verus!
