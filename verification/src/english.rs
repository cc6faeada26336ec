//! How the builtin reads in English.

use vstd::prelude::*;

use crate::features;
use crate::features::Feature;
use crate::messages::Messages;
use crate::opts::{JobControl, StatusCmdOpts};
use crate::parser::{law_functions_are_found_by_level, Parser};
use crate::printf::{
    directive, filled, formatted, law_directive_stands_for_argument,
    law_text_stands_for_itself, left_over, Arg, Directive,
};
use crate::shared;
use crate::status;
use crate::status::performed;
use crate::status_cmd::StatusCmd;
use crate::text;

verus! {

/// A directive and the text behind it.
proof fn lemma_next(d: Seq<char>, plain: Seq<char>, rest: Seq<char>, args: Seq<Arg>, k: int)
    requires
        d == "%s"@ || d == "%ls"@ || d == "%d"@,
        !plain.contains('%'),
        0 <= k < args.len(),
    ensures
        formatted(d + plain + rest, args.skip(k)) == args[k].shown() + plain + formatted(
            rest,
            args.skip(k + 1),
        ),
{
    assert(d + plain + rest =~= d + (plain + rest));
    assert(args.skip(k).skip(1) =~= args.skip(k + 1));
    law_directive_stands_for_argument(d, plain + rest, args.skip(k));
    law_text_stands_for_itself(plain, rest, args.skip(k + 1));
    assert(args[k].shown() + (plain + formatted(rest, args.skip(k + 1))) =~= args[k].shown()
        + plain + formatted(rest, args.skip(k + 1)));
}

/// A column whose width an argument gives.
proof fn lemma_star_column(rest: Seq<char>, args: Seq<Arg>, k: int)
    requires
        0 <= k,
        k + 1 < args.len(),
        !args[k].asks_left(),
    ensures
        formatted("%-*ls"@ + rest, args.skip(k)) == text::padded(
            args[k + 1].shown(),
            args[k].width(),
        ) + formatted(rest, args.skip(k + 2)),
{
    reveal_strlit("%-*ls");
    let whole = "%-*ls"@ + rest;
    let s = whole.skip(1);
    assert(s.len() >= 4 && s[0] == '-' && s[1] == '*' && s[2] == 'l' && s[3] == 's');
    let d = Directive { left: true, star: true, width: 0, len: 4 };
    assert(directive(s) == Some(d));
    assert(whole.skip(1 + d.len) =~= rest);
    assert(left_over(d, args.skip(k)) =~= args.skip(k + 2));
}

/// A column of three characters, and the text behind it.
proof fn lemma_column(plain: Seq<char>, rest: Seq<char>, args: Seq<Arg>, k: int)
    requires
        !plain.contains('%'),
        0 <= k < args.len(),
    ensures
        formatted("%-3s"@ + plain + rest, args.skip(k)) == text::padded(args[k].shown(), 3) + plain
            + formatted(rest, args.skip(k + 1)),
{
    reveal_strlit("%-3s");
    let whole = "%-3s"@ + plain + rest;
    let s = whole.skip(1);
    assert(s.len() >= 3 && s[0] == '-' && s[1] == '3' && s[2] == 's');
    let d = Directive { left: true, star: false, width: 3, len: 3 };
    assert(directive(s) == Some(d));
    assert(whole.skip(1 + d.len) =~= plain + rest);
    assert(args.skip(k).skip(1) =~= args.skip(k + 1));
    assert(filled(d, args.skip(k)) == text::padded(args[k].shown(), 3));
    law_text_stands_for_itself(plain, rest, args.skip(k + 1));
    assert(formatted(whole, args.skip(k)) =~= text::padded(args[k].shown(), 3) + plain
        + formatted(rest, args.skip(k + 1)));
}

/// How the message [`shared::combo2_exclusive`] reads in English.
pub proof fn law_english_combo2_exclusive(
    messages: Messages,
    cmd: Seq<char>,
    first: Seq<char>,
    second: Seq<char>,
)
    requires
        messages.is_english(),
    ensures
        shared::combo2_exclusive(messages, cmd, first, second)
            == cmd + ": "@ + first + " "@ + second + ": options cannot be used together\n"@,
{
    reveal_strlit("%ls: %ls %ls: options cannot be used together\n");
    reveal_strlit("%ls");
    reveal_strlit(": ");
    reveal_strlit(" ");
    reveal_strlit(": options cannot be used together\n");
    let args = seq![Arg::Text(cmd), Arg::Text(first), Arg::Text(second)];
    let end: Seq<char> = seq![];
    let rest_2 = "%ls"@ + ": options cannot be used together\n"@ + end;
    let rest_1 = "%ls"@ + " "@ + rest_2;
    assert("%ls: %ls %ls: options cannot be used together\n"@ =~= "%ls"@ + ": "@ + rest_1);
    assert(args.skip(0) =~= args);
    lemma_next("%ls"@, ": "@, rest_1, args, 0);
    lemma_next("%ls"@, " "@, rest_2, args, 1);
    lemma_next("%ls"@, ": options cannot be used together\n"@, end, args, 2);
    assert(formatted("%ls: %ls %ls: options cannot be used together\n"@, args)
        =~= cmd + ": "@ + first + " "@ + second + ": options cannot be used together\n"@);
}

/// How the message [`shared::arg_count2`] reads in English.
pub proof fn law_english_arg_count2(
    messages: Messages,
    cmd: Seq<char>,
    sub_cmd: Seq<char>,
    expected: nat,
    got: nat,
)
    requires
        messages.is_english(),
    ensures
        shared::arg_count2(messages, cmd, sub_cmd, expected, got)
            == cmd + ": "@ + sub_cmd + ": expected "@ + text::decimal(expected)
                + " arguments; got "@ + text::decimal(got) + "\n"@,
{
    reveal_strlit("%ls: %ls: expected %d arguments; got %d\n");
    reveal_strlit("%ls");
    reveal_strlit(": ");
    reveal_strlit(": expected ");
    reveal_strlit("%d");
    reveal_strlit(" arguments; got ");
    reveal_strlit("\n");
    let args = seq![
        Arg::Text(cmd),
        Arg::Text(sub_cmd),
        Arg::Number(expected as int),
        Arg::Number(got as int),
    ];
    let end: Seq<char> = seq![];
    let rest_3 = "%d"@ + "\n"@ + end;
    let rest_2 = "%d"@ + " arguments; got "@ + rest_3;
    let rest_1 = "%ls"@ + ": expected "@ + rest_2;
    assert("%ls: %ls: expected %d arguments; got %d\n"@ =~= "%ls"@ + ": "@ + rest_1);
    assert(args.skip(0) =~= args);
    lemma_next("%ls"@, ": "@, rest_1, args, 0);
    lemma_next("%ls"@, ": expected "@, rest_2, args, 1);
    lemma_next("%d"@, " arguments; got "@, rest_3, args, 2);
    lemma_next("%d"@, "\n"@, end, args, 3);
    assert(formatted("%ls: %ls: expected %d arguments; got %d\n"@, args)
        =~= cmd + ": "@ + sub_cmd + ": expected "@ + text::decimal(expected) + " arguments; got "@
            + text::decimal(got) + "\n"@);
}

/// How the message [`shared::invalid_subcmd`] reads in English.
pub proof fn law_english_invalid_subcmd(
    messages: Messages,
    cmd: Seq<char>,
    sub_cmd: Seq<char>,
)
    requires
        messages.is_english(),
    ensures
        shared::invalid_subcmd(messages, cmd, sub_cmd)
            == cmd + ": "@ + sub_cmd + ": invalid subcommand\n"@,
{
    reveal_strlit("%ls: %ls: invalid subcommand\n");
    reveal_strlit("%ls");
    reveal_strlit(": ");
    reveal_strlit(": invalid subcommand\n");
    let args = seq![Arg::Text(cmd), Arg::Text(sub_cmd)];
    let end: Seq<char> = seq![];
    let rest_1 = "%ls"@ + ": invalid subcommand\n"@ + end;
    assert("%ls: %ls: invalid subcommand\n"@ =~= "%ls"@ + ": "@ + rest_1);
    assert(args.skip(0) =~= args);
    lemma_next("%ls"@, ": "@, rest_1, args, 0);
    lemma_next("%ls"@, ": invalid subcommand\n"@, end, args, 1);
    assert(formatted("%ls: %ls: invalid subcommand\n"@, args)
        =~= cmd + ": "@ + sub_cmd + ": invalid subcommand\n"@);
}

/// How the message [`shared::not_number`] reads in English.
pub proof fn law_english_not_number(
    messages: Messages,
    cmd: Seq<char>,
    arg: Seq<char>,
)
    requires
        messages.is_english(),
    ensures
        shared::not_number(messages, cmd, arg)
            == cmd + ": "@ + arg + ": invalid integer\n"@,
{
    reveal_strlit("%ls: %ls: invalid integer\n");
    reveal_strlit("%ls");
    reveal_strlit(": ");
    reveal_strlit(": invalid integer\n");
    let args = seq![Arg::Text(cmd), Arg::Text(arg)];
    let end: Seq<char> = seq![];
    let rest_1 = "%ls"@ + ": invalid integer\n"@ + end;
    assert("%ls: %ls: invalid integer\n"@ =~= "%ls"@ + ": "@ + rest_1);
    assert(args.skip(0) =~= args);
    lemma_next("%ls"@, ": "@, rest_1, args, 0);
    lemma_next("%ls"@, ": invalid integer\n"@, end, args, 1);
    assert(formatted("%ls: %ls: invalid integer\n"@, args)
        =~= cmd + ": "@ + arg + ": invalid integer\n"@);
}

/// How the message [`shared::invalid_level`] reads in English.
pub proof fn law_english_invalid_level(
    messages: Messages,
    cmd: Seq<char>,
    arg: Seq<char>,
)
    requires
        messages.is_english(),
    ensures
        shared::invalid_level(messages, cmd, arg)
            == cmd + ": Invalid level value '"@ + arg + "'\n"@,
{
    reveal_strlit("%ls: Invalid level value '%ls'\n");
    reveal_strlit("%ls");
    reveal_strlit(": Invalid level value '");
    reveal_strlit("'\n");
    let args = seq![Arg::Text(cmd), Arg::Text(arg)];
    let end: Seq<char> = seq![];
    let rest_1 = "%ls"@ + "'\n"@ + end;
    assert("%ls: Invalid level value '%ls'\n"@ =~= "%ls"@ + ": Invalid level value '"@ + rest_1);
    assert(args.skip(0) =~= args);
    lemma_next("%ls"@, ": Invalid level value '"@, rest_1, args, 0);
    lemma_next("%ls"@, "'\n"@, end, args, 1);
    assert(formatted("%ls: Invalid level value '%ls'\n"@, args)
        =~= cmd + ": Invalid level value '"@ + arg + "'\n"@);
}

/// How the message [`shared::invalid_job_control_mode`] reads in English.
pub proof fn law_english_invalid_job_control_mode(
    messages: Messages,
    cmd: Seq<char>,
    arg: Seq<char>,
)
    requires
        messages.is_english(),
    ensures
        shared::invalid_job_control_mode(messages, cmd, arg)
            == cmd + ": Invalid job control mode '"@ + arg + "'\n"@,
{
    reveal_strlit("%ls: Invalid job control mode '%ls'\n");
    reveal_strlit("%ls");
    reveal_strlit(": Invalid job control mode '");
    reveal_strlit("'\n");
    let args = seq![Arg::Text(cmd), Arg::Text(arg)];
    let end: Seq<char> = seq![];
    let rest_1 = "%ls"@ + "'\n"@ + end;
    assert("%ls: Invalid job control mode '%ls'\n"@
        =~= "%ls"@ + ": Invalid job control mode '"@ + rest_1);
    assert(args.skip(0) =~= args);
    lemma_next("%ls"@, ": Invalid job control mode '"@, rest_1, args, 0);
    lemma_next("%ls"@, "'\n"@, end, args, 1);
    assert(formatted("%ls: Invalid job control mode '%ls'\n"@, args)
        =~= cmd + ": Invalid job control mode '"@ + arg + "'\n"@);
}

/// How the message [`shared::no_executable_path`] reads in English.
pub proof fn law_english_no_executable_path(
    messages: Messages,
    cmd: Seq<char>,
    reason: Seq<char>,
)
    requires
        messages.is_english(),
    ensures
        shared::no_executable_path(messages, cmd, reason)
            == cmd + ": Could not get executable path: '"@ + reason + "'\n"@,
{
    reveal_strlit("%ls: Could not get executable path: '%s'\n");
    reveal_strlit("%ls");
    reveal_strlit(": Could not get executable path: '");
    reveal_strlit("%s");
    reveal_strlit("'\n");
    let args = seq![Arg::Text(cmd), Arg::Text(reason)];
    let end: Seq<char> = seq![];
    let rest_1 = "%s"@ + "'\n"@ + end;
    assert("%ls: Could not get executable path: '%s'\n"@
        =~= "%ls"@ + ": Could not get executable path: '"@ + rest_1);
    assert(args.skip(0) =~= args);
    lemma_next("%ls"@, ": Could not get executable path: '"@, rest_1, args, 0);
    lemma_next("%s"@, "'\n"@, end, args, 1);
    assert(formatted("%ls: Could not get executable path: '%s'\n"@, args)
        =~= cmd + ": Could not get executable path: '"@ + reason + "'\n"@);
}

/// How a text on a line of its own reads in English.
pub proof fn law_english_text_line(messages: Messages, s: Seq<char>)
    requires
        messages.is_english(),
    ensures
        status::text_line(messages, s) == s + "\n"@,
{
    reveal_strlit("%ls\n");
    reveal_strlit("%ls");
    reveal_strlit("\n");
    let args = seq![Arg::Text(s)];
    let end: Seq<char> = seq![];
    assert("%ls\n"@ =~= "%ls"@ + "\n"@ + end);
    assert(args.skip(0) =~= args);
    lemma_next("%ls"@, "\n"@, end, args, 0);
    assert(formatted("%ls\n"@, args)
        =~= s + "\n"@);
}

/// How a number on a line of its own reads in English.
pub proof fn law_english_number_line(messages: Messages, n: int)
    requires
        messages.is_english(),
    ensures
        status::number_line(messages, n) == text::signed_decimal(n) + "\n"@,
{
    reveal_strlit("%d\n");
    reveal_strlit("%d");
    reveal_strlit("\n");
    let args = seq![Arg::Number(n)];
    let end: Seq<char> = seq![];
    assert("%d\n"@ =~= "%d"@ + "\n"@ + end);
    assert(args.skip(0) =~= args);
    lemma_next("%d"@, "\n"@, end, args, 0);
    assert(formatted("%d\n"@, args)
        =~= text::signed_decimal(n) + "\n"@);
}

/// How the overview reads in English.
pub proof fn law_english_overview(parser: Parser)
    requires
        parser.messages.is_english(),
    ensures
        status::overview(parser) == (if parser.login {
            "This is a login shell\n"@
        } else {
            "This is not a login shell\n"@
        }) + "Job control: "@ + (match parser.job_control_mode {
            JobControl::interactive => "Only on interactive jobs"@,
            JobControl::none => "Never"@,
            JobControl::all => "Always"@,
        }) + "\n"@ + parser.stack_trace@,
{
    let mode = match parser.job_control_mode {
        JobControl::interactive => "Only on interactive jobs"@,
        JobControl::none => "Never"@,
        JobControl::all => "Always"@,
    };
    let login = if parser.login {
        "This is a login shell\n"@
    } else {
        "This is not a login shell\n"@
    };
    reveal_strlit("Job control: %ls\n");
    reveal_strlit("Job control: ");
    reveal_strlit("%ls");
    reveal_strlit("\n");
    let args = seq![Arg::Text(mode)];
    let end: Seq<char> = seq![];
    let rest_0 = "%ls"@ + "\n"@ + end;
    assert("Job control: %ls\n"@ =~= "Job control: "@ + rest_0);
    assert(args.skip(0) =~= args);
    law_text_stands_for_itself("Job control: "@, rest_0, args);
    lemma_next("%ls"@, "\n"@, end, args, 0);
    assert(formatted("Job control: %ls\n"@, args)
        =~= "Job control: "@ + mode + "\n"@);
    assert(status::overview(parser) =~= login + "Job control: "@ + mode + "\n"@
        + parser.stack_trace@);
}

/// How the line that tells of a feature reads in English: its name in a column of the given
/// width, whether it is set in a column of three, its groups and its description.
pub proof fn law_english_feature_line(messages: Messages, feature: Feature, width: nat)
    requires
        messages.is_english(),
    ensures
        features::feature_line(messages, feature, width) == text::padded(feature.name@, width)
            + text::padded(
            if feature.enabled {
                "on"@
            } else {
                "off"@
            },
            3,
        ) + " "@ + feature.groups@ + " "@ + feature.description@ + "\n"@,
{
    let set = if feature.enabled {
        "on"@
    } else {
        "off"@
    };
    reveal_strlit("%-*ls%-3s %ls %ls\n");
    reveal_strlit("%-*ls");
    reveal_strlit("%-3s");
    reveal_strlit(" ");
    reveal_strlit("%ls");
    reveal_strlit("\n");
    let args = seq![
        Arg::Number(width as int),
        Arg::Text(feature.name@),
        Arg::Text(set),
        Arg::Text(feature.groups@),
        Arg::Text(feature.description@),
    ];
    let end: Seq<char> = seq![];
    let rest_3 = "%ls"@ + "\n"@ + end;
    let rest_2 = "%ls"@ + " "@ + rest_3;
    let rest_1 = "%-3s"@ + " "@ + rest_2;
    assert("%-*ls%-3s %ls %ls\n"@ =~= "%-*ls"@ + rest_1);
    assert(args.skip(0) =~= args);
    lemma_star_column(rest_1, args, 0);
    lemma_column(" "@, rest_2, args, 2);
    lemma_next("%ls"@, " "@, rest_3, args, 3);
    lemma_next("%ls"@, "\n"@, end, args, 4);
    assert(formatted("%-*ls%-3s %ls %ls\n"@, args)
        =~= text::padded(feature.name@, width) + text::padded(set, 3) + " "@ + feature.groups@
        + " "@ + feature.description@ + "\n"@);
}

/// What is printed in English where there is no file, and where there is no function at the level
/// that is asked for.
pub proof fn law_english_nothing_there(cmd: Seq<char>, opts: StatusCmdOpts, parser: Parser)
    requires
        parser.messages.is_english(),
    ensures
        ({
            let sub_cmd = opts.status_cmd;
            let out = performed(cmd, opts, seq![], parser).written.out;
            &&& parser.current_filename@.len() == 0 && (sub_cmd == StatusCmd::STATUS_FILENAME
                || sub_cmd == StatusCmd::STATUS_BASENAME || sub_cmd == StatusCmd::STATUS_DIRNAME)
                ==> out == "Standard input\n"@
            &&& sub_cmd == StatusCmd::STATUS_FUNCTION && (forall|i: int|
                0 <= i < parser.func_names@.len() ==> (#[trigger] parser.func_names@[i]).0
                    != opts.level) ==> out == "Not a function\n"@
        }),
{
    reveal_strlit("Standard input");
    reveal_strlit("Standard input\n");
    reveal_strlit("Not a function");
    reveal_strlit("Not a function\n");
    reveal_strlit("\n");
    law_functions_are_found_by_level(parser.func_names@, opts.level);
    law_english_text_line(parser.messages, "Standard input"@);
    law_english_text_line(parser.messages, "Not a function"@);
    assert("Standard input"@ + "\n"@ =~= "Standard input\n"@);
    assert("Not a function"@ + "\n"@ =~= "Not a function\n"@);
}

} // verus!
