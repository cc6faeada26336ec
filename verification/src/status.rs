//! The builtin itself: the choice of a subcommand, and the answers.

use libc::c_int;
use vstd::prelude::*;

use crate::cmdline;
use crate::cmdline::parse_cmd_opts;
use crate::features;
use crate::messages::Messages;
use crate::opts::{JobControl, StatusCmdOpts};
use crate::parser;
use crate::parser::{ExecutablePath, Parser};
use crate::printf::{arg_views, formatted, sprintf, Arg, FormatArg};
use crate::shared;
use crate::status_cmd::StatusCmd;
use crate::streams::{BuiltinRequest, IoStreams, Request, Written};
use crate::sys;
use crate::text;
use crate::wgetopt::Scan;
use crate::wutil;

verus! {

/// What is to be done after a command line has been read.
#[derive(Clone, Copy, Debug, PartialEq, Eq, Structural)]
pub enum Plan {
    /// Nothing: the builtin ends with this exit code.
    Finished { code: c_int },
    /// The subcommand `opts.status_cmd`, whose arguments are the words from `optind` on.
    Perform { opts: StatusCmdOpts, optind: usize },
}

/// What a command line comes to: what is to be done, what is written, and how the words then
/// stand.
pub ghost struct Planned {
    pub plan: Plan,
    pub written: Written,
    pub argv: Seq<Seq<char>>,
}

/// What the command line `argv` comes to. A subcommand may be given by an option or as the first
/// operand, but not by both.
pub open spec fn planned(messages: Messages, argv: Seq<Seq<char>>) -> Planned {
    let cmd = argv[0];
    let read = cmdline::parsed(messages, cmd, Scan::start(argv), StatusCmdOpts::initial());
    let optind = read.optind->0;
    let operand = StatusCmd::named(read.argv[optind]);
    if read.code != shared::STATUS_CMD_OK {
        Planned {
            plan: Plan::Finished { code: read.code },
            written: read.written,
            argv: read.argv,
        }
    } else if read.opts.print_help {
        Planned {
            plan: Plan::Finished { code: shared::STATUS_CMD_OK },
            written: Written::request(Request::PrintHelp { cmd }),
            argv: read.argv,
        }
    } else if optind >= argv.len() {
        Planned {
            plan: Plan::Perform { opts: read.opts, optind: optind as usize },
            written: Written::nothing(),
            argv: read.argv,
        }
    } else if operand is None || operand == Some(StatusCmd::STATUS_UNDEF) {
        Planned {
            plan: Plan::Finished { code: shared::STATUS_INVALID_ARGS },
            written: Written::on_err(shared::invalid_subcmd(messages, cmd, read.argv[1])),
            argv: read.argv,
        }
    } else {
        match cmdline::with_cmd(messages, read.opts, cmd, operand->0) {
            Ok(opts) => Planned {
                plan: Plan::Perform { opts, optind: (optind + 1) as usize },
                written: Written::nothing(),
                argv: read.argv,
            },
            Err(refusal) => Planned {
                plan: Plan::Finished { code: refusal.code },
                written: Written::on_err(refusal.message),
                argv: read.argv,
            },
        }
    }
}

/// Reads a command line.
pub fn prepare<'a>(
    messages: &Messages,
    streams: &mut IoStreams,
    args: &mut Vec<&'a str>,
) -> (r: Plan)
    requires
        old(args)@.len() >= 1,
    ensures
        ({
            let expected = planned(*messages, text::views(old(args)@));
            &&& r == expected.plan
            &&& final(streams)@ == old(streams)@.plus(expected.written)
            &&& text::views(final(args)@) == expected.argv
        }),
        r matches Plan::Perform { opts, optind } ==> 1 <= optind <= final(args)@.len(),
{
    let ghost argv = text::views(args@);
    let cmd: &'a str = args[0];
    let mut opts = StatusCmdOpts::default();
    let mut optind: usize = 0;
    let retval = parse_cmd_opts(messages, &mut opts, &mut optind, args, streams);
    proof {
        cmdline::law_options_read(*messages, argv, StatusCmdOpts::initial());
    }
    match retval {
        Some(code) => {
            if code != shared::STATUS_CMD_OK {
                return Plan::Finished { code };
            }
        },
        None => {},
    }
    if opts.print_help {
        streams.request(BuiltinRequest::PrintHelp { cmd: cmd.to_owned() });
        return Plan::Finished { code: shared::STATUS_CMD_OK };
    }
    if optind < args.len() {
        match StatusCmd::try_from(args[optind]) {
            Ok(StatusCmd::STATUS_UNDEF) | Err(()) => {
                streams.append_err(shared::invalid_subcmd_text(messages, cmd, args[1]).as_str());
                return Plan::Finished { code: shared::STATUS_INVALID_ARGS };
            },
            Ok(s) => {
                if let Err(message) = opts.set_status_cmd(messages, cmd, s) {
                    streams.append_err(message.as_str());
                    return Plan::Finished { code: shared::STATUS_CMD_ERROR };
                }
                optind = optind + 1;
            },
        }
    }
    Plan::Perform { opts, optind }
}

/// An answer: the exit code, what is written, and the job control mode that is to hold from now
/// on, if there is a new one.
pub ghost struct Reply {
    pub code: c_int,
    pub written: Written,
    pub new_mode: Option<JobControl>,
}

impl Reply {
    /// The subcommand did what it was asked to, and this is its output.
    pub open spec fn output(text: Seq<char>) -> Reply {
        Reply { code: shared::STATUS_CMD_OK, written: Written::on_out(text), new_mode: None }
    }

    /// The answer to a question is yes or no, and is given by the exit code.
    pub open spec fn yes_or_no(yes: bool) -> Reply {
        let code = if yes {
            shared::STATUS_CMD_OK
        } else {
            shared::STATUS_CMD_ERROR
        };
        Reply { code, written: Written::nothing(), new_mode: None }
    }

    /// The subcommand fails with this message.
    pub open spec fn failure(code: c_int, message: Seq<char>) -> Reply {
        Reply { code, written: Written::on_err(message), new_mode: None }
    }

    /// The subcommand was given the wrong number of arguments.
    pub open spec fn wrong_count(
        messages: Messages,
        cmd: Seq<char>,
        sub_cmd: StatusCmd,
        expected: nat,
        got: nat,
    ) -> Reply {
        Reply::failure(
            shared::STATUS_INVALID_ARGS,
            shared::arg_count2(messages, cmd, sub_cmd.name(), expected, got),
        )
    }

    /// The job control mode is to be `mode`.
    pub open spec fn set_mode(mode: JobControl) -> Reply {
        Reply { new_mode: Some(mode), ..Reply::yes_or_no(true) }
    }
}

/// A text on a line of its own.
pub open spec fn text_line(messages: Messages, text: Seq<char>) -> Seq<char> {
    formatted(messages.text_line@, seq![Arg::Text(text)])
}

/// A number on a line of its own.
pub open spec fn number_line(messages: Messages, n: int) -> Seq<char> {
    formatted(messages.number_line@, seq![Arg::Number(n)])
}

/// What there is to say where no subcommand is given: whether this is a login shell, which jobs
/// are under job control, and the calls that led here.
pub open spec fn overview(parser: Parser) -> Seq<char> {
    let messages = parser.messages;
    let login = if parser.login {
        messages.login_shell@
    } else {
        messages.no_login_shell@
    };
    let mode = match parser.job_control_mode {
        JobControl::interactive => messages.mode_interactive@,
        JobControl::none => messages.mode_none@,
        JobControl::all => messages.mode_all@,
    };
    login + formatted(messages.job_control@, seq![Arg::Text(mode)]) + parser.stack_trace@
}

/// The file that is being run, or the part of its path that is asked for.
pub open spec fn filename(messages: Messages, sub_cmd: StatusCmd, path: Seq<char>) -> Seq<char> {
    if path.len() == 0 {
        messages.standard_input@
    } else if sub_cmd == StatusCmd::STATUS_DIRNAME {
        wutil::dirname(path)
    } else if sub_cmd == StatusCmd::STATUS_BASENAME {
        wutil::basename(path)
    } else {
        path
    }
}

/// The path by which the running shell is called: the canonical form of an absolute path, if
/// there is something there, and else the path as it is.
pub open spec fn shell_path(executable: ExecutablePath) -> Seq<char> {
    let path = executable.path@;
    let absolute = path.len() > 0 && path[0] == '/';
    if absolute && executable.real_path is Some && executable.access == 0 {
        executable.real_path->0@
    } else {
        path
    }
}

/// What is written where the path of the running shell is asked for. Where it is not known, a
/// message gives the reason, and the path is left empty.
pub open spec fn fish_path(
    messages: Messages,
    cmd: Seq<char>,
    executable: ExecutablePath,
    reason: Seq<char>,
) -> Written {
    Written {
        out: shell_path(executable) + "\n"@,
        err: if executable.path@.len() == 0 {
            shared::no_executable_path(messages, cmd, reason)
        } else {
            seq![]
        },
        requests: seq![],
    }
}

/// Whether a subcommand gets by without an argument.
pub open spec fn needs_no_argument(sub_cmd: StatusCmd) -> bool {
    sub_cmd != StatusCmd::STATUS_SET_JOB_CONTROL && sub_cmd != StatusCmd::STATUS_TEST_FEATURE
}

/// The answer of a subcommand that needs no argument.
pub open spec fn answer(cmd: Seq<char>, opts: StatusCmdOpts, parser: Parser) -> Reply
    recommends
        needs_no_argument(opts.status_cmd),
{
    let messages = parser.messages;
    match opts.status_cmd {
        StatusCmd::STATUS_UNDEF => Reply::output(overview(parser)),
        StatusCmd::STATUS_BASENAME
        | StatusCmd::STATUS_DIRNAME
        | StatusCmd::STATUS_FILENAME => Reply::output(
            text_line(
                messages,
                filename(messages, opts.status_cmd, parser.current_filename@),
            ),
        ),
        StatusCmd::STATUS_FUNCTION => Reply::output(
            text_line(
                messages,
                match parser::func_name(parser.func_names@, opts.level) {
                    Some(name) => name,
                    None => messages.not_a_function@,
                },
            ),
        ),
        StatusCmd::STATUS_LINE_NUMBER => Reply::output(
            number_line(messages, parser.lineno as int),
        ),
        StatusCmd::STATUS_IS_INTERACTIVE => Reply::yes_or_no(parser.interactive_session),
        StatusCmd::STATUS_IS_COMMAND_SUB => Reply::yes_or_no(parser.is_subshell),
        StatusCmd::STATUS_IS_BLOCK => Reply::yes_or_no(parser.is_block),
        StatusCmd::STATUS_IS_BREAKPOINT => Reply::yes_or_no(parser.is_breakpoint),
        StatusCmd::STATUS_IS_LOGIN => Reply::yes_or_no(parser.login),
        StatusCmd::STATUS_IS_FULL_JOB_CTRL => Reply::yes_or_no(
            parser.job_control_mode == JobControl::all,
        ),
        StatusCmd::STATUS_IS_INTERACTIVE_JOB_CTRL => Reply::yes_or_no(
            parser.job_control_mode == JobControl::interactive,
        ),
        StatusCmd::STATUS_IS_NO_JOB_CTRL => Reply::yes_or_no(
            parser.job_control_mode == JobControl::none,
        ),
        StatusCmd::STATUS_STACK_TRACE => Reply::output(parser.stack_trace@),
        StatusCmd::STATUS_CURRENT_CMD => Reply::output(
            if parser.status_vars_command@.len() > 0 {
                parser.status_vars_command@
            } else {
                "fish"@
            } + "\n"@,
        ),
        StatusCmd::STATUS_CURRENT_COMMANDLINE => Reply::output(
            parser.status_vars_commandline@ + "\n"@,
        ),
        StatusCmd::STATUS_FISH_PATH => Reply {
            written: fish_path(
                messages,
                cmd,
                parser.executable,
                sys::errno_message(parser.executable.errno),
            ),
            ..Reply::yes_or_no(true)
        },
        StatusCmd::STATUS_FEATURES => Reply::output(
            features::feature_list(messages, parser.features@),
        ),
        StatusCmd::STATUS_SET_JOB_CONTROL | StatusCmd::STATUS_TEST_FEATURE => arbitrary(),
    }
}

/// The answer of a subcommand that is given the arguments `args`.
pub open spec fn performed(
    cmd: Seq<char>,
    opts: StatusCmdOpts,
    args: Seq<Seq<char>>,
    parser: Parser,
) -> Reply {
    let messages = parser.messages;
    let sub_cmd = opts.status_cmd;
    match sub_cmd {
        StatusCmd::STATUS_SET_JOB_CONTROL => match opts.new_job_control_mode {
            Some(mode) => if args.len() != 0 {
                Reply::wrong_count(messages, cmd, sub_cmd, 0, args.len())
            } else {
                Reply::set_mode(mode)
            },
            None => if args.len() != 1 {
                Reply::wrong_count(messages, cmd, sub_cmd, 1, args.len())
            } else {
                match JobControl::named(args[0]) {
                    Some(mode) => Reply::set_mode(mode),
                    None => Reply::failure(
                        shared::STATUS_CMD_ERROR,
                        shared::invalid_job_control_mode(messages, cmd, args[0]),
                    ),
                }
            },
        },
        StatusCmd::STATUS_TEST_FEATURE => if args.len() != 1 {
            Reply::wrong_count(messages, cmd, sub_cmd, 1, args.len())
        } else {
            Reply {
                code: features::feature_state(parser.features@, args[0]).exit_code(),
                ..Reply::yes_or_no(true)
            }
        },
        StatusCmd::STATUS_FEATURES => answer(cmd, opts, parser),
        _ => if args.len() != 0 {
            Reply::wrong_count(messages, cmd, sub_cmd, 0, args.len())
        } else {
            answer(cmd, opts, parser)
        },
    }
}

/// Prints what there is to say where no subcommand is given.
fn print_overview(streams: &mut IoStreams, parser: &Parser)
    ensures
        final(streams)@ == old(streams)@.plus(Written::on_out(overview(*parser))),
{
    let messages = &parser.messages;
    let login: &str = if parser.login {
        messages.login_shell.as_str()
    } else {
        messages.no_login_shell.as_str()
    };
    let mode: &str = match parser.job_control_mode {
        JobControl::interactive => messages.mode_interactive.as_str(),
        JobControl::none => messages.mode_none.as_str(),
        JobControl::all => messages.mode_all.as_str(),
    };
    let args = vec![FormatArg::Text(mode)];
    assert(arg_views(args@) =~= seq![Arg::Text(mode@)]);
    let mut text = login.to_owned();
    text.append(sprintf(messages.job_control.as_str(), &args).as_str());
    text.append(parser.stack_trace.as_str());
    streams.append_out(text.as_str());
}

/// Prints a text on a line of its own, as the user's language has it.
fn print_text_line(streams: &mut IoStreams, messages: &Messages, text: &str)
    ensures
        final(streams)@ == old(streams)@.plus(Written::on_out(text_line(*messages, text@))),
{
    let args = vec![FormatArg::Text(text)];
    assert(arg_views(args@) =~= seq![Arg::Text(text@)]);
    streams.append_out(sprintf(messages.text_line.as_str(), &args).as_str());
}

/// Prints a number on a line of its own, as the user's language has it.
fn print_number_line(streams: &mut IoStreams, messages: &Messages, n: i32)
    ensures
        final(streams)@ == old(streams)@.plus(Written::on_out(number_line(*messages, n as int))),
{
    let args = vec![FormatArg::Int(n)];
    assert(arg_views(args@) =~= seq![Arg::Number(n as int)]);
    streams.append_out(sprintf(messages.number_line.as_str(), &args).as_str());
}

/// Prints a text and a line break behind it.
fn print_line(streams: &mut IoStreams, text: &str)
    ensures
        final(streams)@ == old(streams)@.plus(Written::on_out(text@ + "\n"@)),
{
    let mut line = text.to_owned();
    line.append("\n");
    streams.append_out(line.as_str());
}

/// Prints the path of the running shell; `reason` is why it is not known, where it is not.
pub fn print_fish_path(
    streams: &mut IoStreams,
    messages: &Messages,
    cmd: &str,
    executable: &ExecutablePath,
    reason: &str,
)
    ensures
        final(streams)@ == old(streams)@.plus(
            fish_path(*messages, cmd@, *executable, reason@),
        ),
{
    let path = executable.path.as_str();
    if sys::path_is_empty(path) {
        streams.append_err(shared::no_executable_path_text(messages, cmd, reason).as_str());
    }
    if !path.is_empty() && path.get_char(0) == '/' {
        match &executable.real_path {
            Some(canonical) => {
                if executable.access == 0 {
                    print_line(streams, canonical.as_str());
                } else {
                    print_line(streams, path);
                }
            },
            None => print_line(streams, path),
        }
    } else {
        print_line(streams, path);
    }
}

/// The exit code that says yes or no.
fn yes_or_no(yes: bool) -> (r: c_int)
    ensures
        r == Reply::yes_or_no(yes).code,
{
    if yes {
        shared::STATUS_CMD_OK
    } else {
        shared::STATUS_CMD_ERROR
    }
}

/// Answers for a subcommand that needs no argument.
fn give_answer(streams: &mut IoStreams, cmd: &str, opts: &StatusCmdOpts, parser: &Parser) -> (r:
    c_int)
    requires
        needs_no_argument(opts.status_cmd),
    ensures
        r == answer(cmd@, *opts, *parser).code,
        final(streams)@ == old(streams)@.plus(answer(cmd@, *opts, *parser).written),
        answer(cmd@, *opts, *parser).new_mode is None,
{
    let messages = &parser.messages;
    match opts.status_cmd {
        StatusCmd::STATUS_UNDEF => {
            print_overview(streams, parser);
        },
        StatusCmd::STATUS_BASENAME | StatusCmd::STATUS_DIRNAME | StatusCmd::STATUS_FILENAME => {
            let res = parser.current_filename.as_str();
            let f: &str = if res.is_empty() {
                messages.standard_input.as_str()
            } else if opts.status_cmd == StatusCmd::STATUS_DIRNAME {
                wutil::wdirname(res)
            } else if opts.status_cmd == StatusCmd::STATUS_BASENAME {
                wutil::wbasename(res)
            } else {
                res
            };
            print_text_line(streams, messages, f);
        },
        StatusCmd::STATUS_FUNCTION => {
            let f: &str = match parser.get_func_name(opts.level) {
                Some(f) => f,
                None => messages.not_a_function.as_str(),
            };
            print_text_line(streams, messages, f);
        },
        StatusCmd::STATUS_LINE_NUMBER => {
            print_number_line(streams, messages, parser.lineno);
        },
        StatusCmd::STATUS_IS_INTERACTIVE => {
            return yes_or_no(parser.interactive_session);
        },
        StatusCmd::STATUS_IS_COMMAND_SUB => {
            return yes_or_no(parser.is_subshell);
        },
        StatusCmd::STATUS_IS_BLOCK => {
            return yes_or_no(parser.is_block);
        },
        StatusCmd::STATUS_IS_BREAKPOINT => {
            return yes_or_no(parser.is_breakpoint);
        },
        StatusCmd::STATUS_IS_LOGIN => {
            return yes_or_no(parser.login);
        },
        StatusCmd::STATUS_IS_FULL_JOB_CTRL => {
            return yes_or_no(parser.job_control_mode == JobControl::all);
        },
        StatusCmd::STATUS_IS_INTERACTIVE_JOB_CTRL => {
            return yes_or_no(parser.job_control_mode == JobControl::interactive);
        },
        StatusCmd::STATUS_IS_NO_JOB_CTRL => {
            return yes_or_no(parser.job_control_mode == JobControl::none);
        },
        StatusCmd::STATUS_STACK_TRACE => {
            streams.append_out(parser.stack_trace.as_str());
        },
        StatusCmd::STATUS_CURRENT_CMD => {
            let var = parser.status_vars_command.as_str();
            if !var.is_empty() {
                print_line(streams, var);
            } else {
                print_line(streams, "fish");
            }
        },
        StatusCmd::STATUS_CURRENT_COMMANDLINE => {
            print_line(streams, parser.status_vars_commandline.as_str());
        },
        StatusCmd::STATUS_FISH_PATH => {
            let reason = if sys::path_is_empty(parser.executable.path.as_str()) {
                sys::errno_text(parser.executable.errno)
            } else {
                String::new()
            };
            print_fish_path(streams, messages, cmd, &parser.executable, reason.as_str());
        },
        StatusCmd::STATUS_FEATURES => {
            features::print_features(streams, messages, &parser.features);
        },
        StatusCmd::STATUS_SET_JOB_CONTROL | StatusCmd::STATUS_TEST_FEATURE => {},
    }
    shared::STATUS_CMD_OK
}

/// Says that a subcommand was given the wrong number of arguments.
fn wrong_count(
    streams: &mut IoStreams,
    messages: &Messages,
    cmd: &str,
    sub_cmd: StatusCmd,
    expected: usize,
    got: usize,
) -> (r: c_int)
    ensures
        r == Reply::wrong_count(*messages, cmd@, sub_cmd, expected as nat, got as nat).code,
        final(streams)@ == old(streams)@.plus(
            Reply::wrong_count(*messages, cmd@, sub_cmd, expected as nat, got as nat).written,
        ),
{
    let name = sub_cmd.to_wstr();
    let message = shared::arg_count2_text(messages, cmd, name.as_str(), expected, got);
    streams.append_err(message.as_str());
    shared::STATUS_INVALID_ARGS
}

/// The state of the shell after an answer: only the job control mode may have changed.
pub open spec fn updated(parser: Parser, reply: Reply) -> Parser {
    match reply.new_mode {
        Some(mode) => Parser { job_control_mode: mode, ..parser },
        None => parser,
    }
}

/// Performs the subcommand `opts.status_cmd`. Its arguments are the words from `optind` on.
pub fn perform<'a>(
    parser: &mut Parser,
    streams: &mut IoStreams,
    args: &Vec<&'a str>,
    opts: &StatusCmdOpts,
    optind: usize,
) -> (r: Option<c_int>)
    requires
        1 <= optind <= args@.len(),
    ensures
        ({
            let words = text::views(args@);
            let expected = performed(words[0], *opts, words.skip(optind as int), *old(parser));
            &&& r == Some(expected.code)
            &&& final(streams)@ == old(streams)@.plus(expected.written)
            &&& *final(parser) == updated(*old(parser), expected)
        }),
{
    let cmd: &'a str = args[0];
    let got: usize = args.len() - optind;
    let sub_cmd = opts.status_cmd;
    match sub_cmd {
        StatusCmd::STATUS_SET_JOB_CONTROL => {
            let job_control_mode = match opts.new_job_control_mode {
                Some(j) => {
                    if got != 0 {
                        return Some(wrong_count(streams, &parser.messages, cmd, sub_cmd, 0, got));
                    }
                    j
                },
                None => {
                    if got != 1 {
                        return Some(wrong_count(streams, &parser.messages, cmd, sub_cmd, 1, got));
                    }
                    match JobControl::try_from(args[optind]) {
                        Ok(new_mode) => new_mode,
                        Err(()) => {
                            streams.append_err(
                                shared::invalid_job_control_mode_text(
                                    &parser.messages,
                                    cmd,
                                    args[optind],
                                ).as_str(),
                            );
                            return Some(shared::STATUS_CMD_ERROR);
                        },
                    }
                },
            };
            parser.job_control_mode = job_control_mode;
            Some(shared::STATUS_CMD_OK)
        },
        StatusCmd::STATUS_TEST_FEATURE => {
            if got != 1 {
                return Some(wrong_count(streams, &parser.messages, cmd, sub_cmd, 1, got));
            }
            Some(features::test_feature(&parser.features, args[optind]).code())
        },
        StatusCmd::STATUS_FEATURES => Some(give_answer(streams, cmd, opts, parser)),
        _ => {
            if got != 0 {
                return Some(wrong_count(streams, &parser.messages, cmd, sub_cmd, 0, got));
            }
            Some(give_answer(streams, cmd, opts, parser))
        },
    }
}

/// What a call of `status` comes to: the answer, and how the words then stand.
pub ghost struct Outcome {
    pub reply: Reply,
    pub argv: Seq<Seq<char>>,
}

/// What `status` does with the command line `argv` in the given state of the shell.
pub open spec fn outcome(argv: Seq<Seq<char>>, parser: Parser) -> Outcome {
    let first = planned(parser.messages, argv);
    Outcome {
        reply: match first.plan {
            Plan::Finished { code } => Reply { code, written: first.written, new_mode: None },
            Plan::Perform { opts, optind } => performed(
                argv[0],
                opts,
                first.argv.skip(optind as int),
                parser,
            ),
        },
        argv: first.argv,
    }
}

/// Runs the builtin on the words of its command line, the first of which is its own name.
pub fn status<'a>(parser: &mut Parser, streams: &mut IoStreams, args: &mut Vec<&'a str>) -> (r:
    Option<c_int>)
    requires
        old(args)@.len() >= 1,
    ensures
        ({
            let expected = outcome(text::views(old(args)@), *old(parser));
            &&& r == Some(expected.reply.code)
            &&& final(streams)@ == old(streams)@.plus(expected.reply.written)
            &&& *final(parser) == updated(*old(parser), expected.reply)
            &&& text::views(final(args)@) == expected.argv
        }),
{
    proof {
        cmdline::law_options_read(parser.messages, text::views(args@), StatusCmdOpts::initial());
    }
    match prepare(&parser.messages, streams, args) {
        Plan::Finished { code } => Some(code),
        Plan::Perform { opts, optind } => perform(parser, streams, args, &opts, optind),
    }
}

} // verus!
