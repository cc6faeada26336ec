//! What the builtins of the shell have in common: their exit codes and their error messages.

use libc::c_int;
use vstd::prelude::*;

use crate::messages::Messages;
use crate::printf::{
    all_shown, arg_views, formatted, law_directives_give_way_to_arguments, sprintf, woven, Arg,
    FormatArg,
};
use crate::text;

verus! {

/// The command did what it was asked to.
pub const STATUS_CMD_OK: c_int = 0;

/// The command failed, or answers "no".
pub const STATUS_CMD_ERROR: c_int = 1;

/// The command was called with arguments that it does not accept.
pub const STATUS_INVALID_ARGS: c_int = 2;

/// Two options or subcommands were given that rule each other out.
pub open spec fn combo2_exclusive(
    messages: Messages,
    cmd: Seq<char>,
    first: Seq<char>,
    second: Seq<char>,
) -> Seq<char> {
    formatted(
        messages.combo2_exclusive@,
        seq![Arg::Text(cmd), Arg::Text(first), Arg::Text(second)],
    )
}

/// A subcommand was given `got` arguments where it takes `expected`.
pub open spec fn arg_count2(
    messages: Messages,
    cmd: Seq<char>,
    sub_cmd: Seq<char>,
    expected: nat,
    got: nat,
) -> Seq<char> {
    formatted(
        messages.arg_count2@,
        seq![
            Arg::Text(cmd),
            Arg::Text(sub_cmd),
            Arg::Number(expected as int),
            Arg::Number(got as int),
        ],
    )
}

/// There is no subcommand of that name.
pub open spec fn invalid_subcmd(
    messages: Messages,
    cmd: Seq<char>,
    sub_cmd: Seq<char>,
) -> Seq<char> {
    formatted(
        messages.invalid_subcmd@,
        seq![Arg::Text(cmd), Arg::Text(sub_cmd)],
    )
}

/// An option wants an integer, and `arg` is none.
pub open spec fn not_number(
    messages: Messages,
    cmd: Seq<char>,
    arg: Seq<char>,
) -> Seq<char> {
    formatted(
        messages.not_number@,
        seq![Arg::Text(cmd), Arg::Text(arg)],
    )
}

/// An option wants a level, and the integer `arg` cannot be one.
pub open spec fn invalid_level(
    messages: Messages,
    cmd: Seq<char>,
    arg: Seq<char>,
) -> Seq<char> {
    formatted(
        messages.invalid_level@,
        seq![Arg::Text(cmd), Arg::Text(arg)],
    )
}

/// There is no job control mode called `arg`.
pub open spec fn invalid_job_control_mode(
    messages: Messages,
    cmd: Seq<char>,
    arg: Seq<char>,
) -> Seq<char> {
    formatted(
        messages.invalid_job_control_mode@,
        seq![Arg::Text(cmd), Arg::Text(arg)],
    )
}

/// The path of the running shell is not known, for the given reason.
pub open spec fn no_executable_path(
    messages: Messages,
    cmd: Seq<char>,
    reason: Seq<char>,
) -> Seq<char> {
    formatted(
        messages.no_executable_path@,
        seq![Arg::Text(cmd), Arg::Text(reason)],
    )
}

/// Composes the message [`combo2_exclusive`].
pub fn combo2_exclusive_text(
    messages: &Messages,
    cmd: &str,
    first: &str,
    second: &str,
) -> (r: String)
    ensures
        r@ == combo2_exclusive(*messages, cmd@, first@, second@),
{
    let args = vec![
        FormatArg::Text(cmd),
        FormatArg::Text(first),
        FormatArg::Text(second),
    ];
    assert(arg_views(args@) =~= seq![Arg::Text(cmd@), Arg::Text(first@), Arg::Text(second@)]);
    sprintf(messages.combo2_exclusive.as_str(), &args)
}

/// Composes the message [`arg_count2`].
pub fn arg_count2_text(
    messages: &Messages,
    cmd: &str,
    sub_cmd: &str,
    expected: usize,
    got: usize,
) -> (r: String)
    ensures
        r@ == arg_count2(*messages, cmd@, sub_cmd@, expected as nat, got as nat),
{
    let args = vec![
        FormatArg::Text(cmd),
        FormatArg::Text(sub_cmd),
        FormatArg::Count(expected as u128),
        FormatArg::Count(got as u128),
    ];
    assert(arg_views(args@) =~= seq![
        Arg::Text(cmd@),
        Arg::Text(sub_cmd@),
        Arg::Number(expected as int),
        Arg::Number(got as int),
    ]);
    sprintf(messages.arg_count2.as_str(), &args)
}

/// Composes the message [`invalid_subcmd`].
pub fn invalid_subcmd_text(
    messages: &Messages,
    cmd: &str,
    sub_cmd: &str,
) -> (r: String)
    ensures
        r@ == invalid_subcmd(*messages, cmd@, sub_cmd@),
{
    let args = vec![
        FormatArg::Text(cmd),
        FormatArg::Text(sub_cmd),
    ];
    assert(arg_views(args@) =~= seq![Arg::Text(cmd@), Arg::Text(sub_cmd@)]);
    sprintf(messages.invalid_subcmd.as_str(), &args)
}

/// Composes the message [`not_number`].
pub fn not_number_text(
    messages: &Messages,
    cmd: &str,
    arg: &str,
) -> (r: String)
    ensures
        r@ == not_number(*messages, cmd@, arg@),
{
    let args = vec![
        FormatArg::Text(cmd),
        FormatArg::Text(arg),
    ];
    assert(arg_views(args@) =~= seq![Arg::Text(cmd@), Arg::Text(arg@)]);
    sprintf(messages.not_number.as_str(), &args)
}

/// Composes the message [`invalid_level`].
pub fn invalid_level_text(
    messages: &Messages,
    cmd: &str,
    arg: &str,
) -> (r: String)
    ensures
        r@ == invalid_level(*messages, cmd@, arg@),
{
    let args = vec![
        FormatArg::Text(cmd),
        FormatArg::Text(arg),
    ];
    assert(arg_views(args@) =~= seq![Arg::Text(cmd@), Arg::Text(arg@)]);
    sprintf(messages.invalid_level.as_str(), &args)
}

/// Composes the message [`invalid_job_control_mode`].
pub fn invalid_job_control_mode_text(
    messages: &Messages,
    cmd: &str,
    arg: &str,
) -> (r: String)
    ensures
        r@ == invalid_job_control_mode(*messages, cmd@, arg@),
{
    let args = vec![
        FormatArg::Text(cmd),
        FormatArg::Text(arg),
    ];
    assert(arg_views(args@) =~= seq![Arg::Text(cmd@), Arg::Text(arg@)]);
    sprintf(messages.invalid_job_control_mode.as_str(), &args)
}

/// Composes the message [`no_executable_path`].
pub fn no_executable_path_text(
    messages: &Messages,
    cmd: &str,
    reason: &str,
) -> (r: String)
    ensures
        r@ == no_executable_path(*messages, cmd@, reason@),
{
    let args = vec![
        FormatArg::Text(cmd),
        FormatArg::Text(reason),
    ];
    assert(arg_views(args@) =~= seq![Arg::Text(cmd@), Arg::Text(reason@)]);
    sprintf(messages.no_executable_path.as_str(), &args)
}

/// In every language the messages put what they are about between the texts that the looked-up
/// format has between its directives.
pub proof fn law_messages_speak_the_language(
    messages: Messages,
    pieces: Seq<Seq<char>>,
    cmd: Seq<char>,
    first: Seq<char>,
    second: Seq<char>,
    expected: nat,
    got: nat,
)
    requires
        forall|i: int| 0 <= i < pieces.len() ==> !(#[trigger] pieces[i]).contains('%'),
    ensures
        pieces.len() == 4 && messages.combo2_exclusive@ == woven(
            pieces,
            seq!["%ls"@, "%ls"@, "%ls"@],
        ) ==> combo2_exclusive(messages, cmd, first, second) == woven(
            pieces,
            seq![cmd, first, second],
        ),
        pieces.len() == 3 && messages.invalid_subcmd@ == woven(pieces, seq!["%ls"@, "%ls"@])
            ==> invalid_subcmd(messages, cmd, first) == woven(pieces, seq![cmd, first]),
        pieces.len() == 3 && messages.not_number@ == woven(pieces, seq!["%ls"@, "%ls"@])
            ==> not_number(messages, cmd, first) == woven(pieces, seq![cmd, first]),
        pieces.len() == 3 && messages.invalid_level@ == woven(pieces, seq!["%ls"@, "%ls"@])
            ==> invalid_level(messages, cmd, first) == woven(pieces, seq![cmd, first]),
        pieces.len() == 3 && messages.invalid_job_control_mode@ == woven(
            pieces,
            seq!["%ls"@, "%ls"@],
        ) ==> invalid_job_control_mode(messages, cmd, first) == woven(pieces, seq![cmd, first]),
        pieces.len() == 3 && messages.no_executable_path@ == woven(pieces, seq!["%ls"@, "%s"@])
            ==> no_executable_path(messages, cmd, first) == woven(pieces, seq![cmd, first]),
        pieces.len() == 5 && messages.arg_count2@ == woven(
            pieces,
            seq!["%ls"@, "%ls"@, "%d"@, "%d"@],
        ) ==> arg_count2(messages, cmd, first, expected, got) == woven(
            pieces,
            seq![cmd, first, text::decimal(expected), text::decimal(got)],
        ),
{
    let two = seq![Arg::Text(cmd), Arg::Text(first)];
    let three = seq![Arg::Text(cmd), Arg::Text(first), Arg::Text(second)];
    let four = seq![
        Arg::Text(cmd),
        Arg::Text(first),
        Arg::Number(expected as int),
        Arg::Number(got as int),
    ];
    assert(all_shown(two) =~= seq![cmd, first]);
    assert(all_shown(three) =~= seq![cmd, first, second]);
    assert(all_shown(four) =~= seq![cmd, first, text::decimal(expected), text::decimal(got)]);
    if pieces.len() == 3 {
        law_directives_give_way_to_arguments(pieces, seq!["%ls"@, "%ls"@], two);
        law_directives_give_way_to_arguments(pieces, seq!["%ls"@, "%s"@], two);
    } else if pieces.len() == 4 {
        law_directives_give_way_to_arguments(pieces, seq!["%ls"@, "%ls"@, "%ls"@], three);
    } else if pieces.len() == 5 {
        law_directives_give_way_to_arguments(pieces, seq!["%ls"@, "%ls"@, "%d"@, "%d"@], four);
    }
}

} // verus!
