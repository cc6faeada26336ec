//! The subcommands of `status`.

use vstd::prelude::*;

use crate::text::same;

verus! {

/// A subcommand of `status`. Several names may stand for one subcommand.
#[allow(non_camel_case_types)]
#[derive(Clone, Copy, Debug, PartialEq, Eq, Structural)]
pub enum StatusCmd {
    STATUS_CURRENT_CMD,
    STATUS_BASENAME,
    STATUS_DIRNAME,
    STATUS_FEATURES,
    STATUS_FILENAME,
    STATUS_FISH_PATH,
    STATUS_FUNCTION,
    STATUS_IS_BLOCK,
    STATUS_IS_BREAKPOINT,
    STATUS_IS_COMMAND_SUB,
    STATUS_IS_FULL_JOB_CTRL,
    STATUS_IS_INTERACTIVE,
    STATUS_IS_INTERACTIVE_JOB_CTRL,
    STATUS_IS_LOGIN,
    STATUS_IS_NO_JOB_CTRL,
    STATUS_LINE_NUMBER,
    STATUS_SET_JOB_CONTROL,
    STATUS_STACK_TRACE,
    STATUS_TEST_FEATURE,
    STATUS_CURRENT_COMMANDLINE,
    /// No subcommand was given.
    STATUS_UNDEF,
}

impl StatusCmd {
    /// The number of the subcommand, counted from one.
    pub open spec fn number(self) -> u32 {
        match self {
            StatusCmd::STATUS_CURRENT_CMD => 1,
            StatusCmd::STATUS_BASENAME => 2,
            StatusCmd::STATUS_DIRNAME => 3,
            StatusCmd::STATUS_FEATURES => 4,
            StatusCmd::STATUS_FILENAME => 5,
            StatusCmd::STATUS_FISH_PATH => 6,
            StatusCmd::STATUS_FUNCTION => 7,
            StatusCmd::STATUS_IS_BLOCK => 8,
            StatusCmd::STATUS_IS_BREAKPOINT => 9,
            StatusCmd::STATUS_IS_COMMAND_SUB => 10,
            StatusCmd::STATUS_IS_FULL_JOB_CTRL => 11,
            StatusCmd::STATUS_IS_INTERACTIVE => 12,
            StatusCmd::STATUS_IS_INTERACTIVE_JOB_CTRL => 13,
            StatusCmd::STATUS_IS_LOGIN => 14,
            StatusCmd::STATUS_IS_NO_JOB_CTRL => 15,
            StatusCmd::STATUS_LINE_NUMBER => 16,
            StatusCmd::STATUS_SET_JOB_CONTROL => 17,
            StatusCmd::STATUS_STACK_TRACE => 18,
            StatusCmd::STATUS_TEST_FEATURE => 19,
            StatusCmd::STATUS_CURRENT_COMMANDLINE => 20,
            StatusCmd::STATUS_UNDEF => 21,
        }
    }

    /// The name by which messages call the subcommand: of several names, the first in
    /// alphabetical order.
    pub open spec fn name(self) -> Seq<char> {
        match self {
            StatusCmd::STATUS_BASENAME => "basename"@,
            StatusCmd::STATUS_CURRENT_CMD => "current-command"@,
            StatusCmd::STATUS_CURRENT_COMMANDLINE => "current-commandline"@,
            StatusCmd::STATUS_DIRNAME => "current-dirname"@,
            StatusCmd::STATUS_FILENAME => "current-filename"@,
            StatusCmd::STATUS_FUNCTION => "current-function"@,
            StatusCmd::STATUS_LINE_NUMBER => "current-line-number"@,
            StatusCmd::STATUS_FEATURES => "features"@,
            StatusCmd::STATUS_FISH_PATH => "fish-path"@,
            StatusCmd::STATUS_IS_BLOCK => "is-block"@,
            StatusCmd::STATUS_IS_BREAKPOINT => "is-breakpoint"@,
            StatusCmd::STATUS_IS_COMMAND_SUB => "is-command-substitution"@,
            StatusCmd::STATUS_IS_FULL_JOB_CTRL => "is-full-job-control"@,
            StatusCmd::STATUS_IS_INTERACTIVE => "is-interactive"@,
            StatusCmd::STATUS_IS_INTERACTIVE_JOB_CTRL => "is-interactive-job-control"@,
            StatusCmd::STATUS_IS_LOGIN => "is-login"@,
            StatusCmd::STATUS_IS_NO_JOB_CTRL => "is-no-job-control"@,
            StatusCmd::STATUS_SET_JOB_CONTROL => "job-control"@,
            StatusCmd::STATUS_STACK_TRACE => "print-stack-trace"@,
            StatusCmd::STATUS_TEST_FEATURE => "test-feature"@,
            StatusCmd::STATUS_UNDEF => "undef"@,
        }
    }

    /// The subcommand that goes by the name `s`, if there is one.
    pub open spec fn named(s: Seq<char>) -> Option<StatusCmd> {
        if s == "basename"@ || s == "current-basename"@ {
            Some(StatusCmd::STATUS_BASENAME)
        } else if s == "current-command"@ {
            Some(StatusCmd::STATUS_CURRENT_CMD)
        } else if s == "current-commandline"@ {
            Some(StatusCmd::STATUS_CURRENT_COMMANDLINE)
        } else if s == "current-dirname"@ || s == "dirname"@ {
            Some(StatusCmd::STATUS_DIRNAME)
        } else if s == "current-filename"@ || s == "filename"@ {
            Some(StatusCmd::STATUS_FILENAME)
        } else if s == "current-function"@ || s == "function"@ {
            Some(StatusCmd::STATUS_FUNCTION)
        } else if s == "current-line-number"@ || s == "line-number"@ {
            Some(StatusCmd::STATUS_LINE_NUMBER)
        } else if s == "features"@ {
            Some(StatusCmd::STATUS_FEATURES)
        } else if s == "fish-path"@ {
            Some(StatusCmd::STATUS_FISH_PATH)
        } else if s == "is-block"@ {
            Some(StatusCmd::STATUS_IS_BLOCK)
        } else if s == "is-breakpoint"@ {
            Some(StatusCmd::STATUS_IS_BREAKPOINT)
        } else if s == "is-command-substitution"@ {
            Some(StatusCmd::STATUS_IS_COMMAND_SUB)
        } else if s == "is-full-job-control"@ {
            Some(StatusCmd::STATUS_IS_FULL_JOB_CTRL)
        } else if s == "is-interactive"@ {
            Some(StatusCmd::STATUS_IS_INTERACTIVE)
        } else if s == "is-interactive-job-control"@ {
            Some(StatusCmd::STATUS_IS_INTERACTIVE_JOB_CTRL)
        } else if s == "is-login"@ {
            Some(StatusCmd::STATUS_IS_LOGIN)
        } else if s == "is-no-job-control"@ {
            Some(StatusCmd::STATUS_IS_NO_JOB_CTRL)
        } else if s == "job-control"@ {
            Some(StatusCmd::STATUS_SET_JOB_CONTROL)
        } else if s == "print-stack-trace"@ || s == "stack-trace"@ {
            Some(StatusCmd::STATUS_STACK_TRACE)
        } else if s == "test-feature"@ {
            Some(StatusCmd::STATUS_TEST_FEATURE)
        } else if s == "undef"@ {
            Some(StatusCmd::STATUS_UNDEF)
        } else {
            None
        }
    }

    /// The subcommand with the given number.
    pub fn from_u32(n: u32) -> (r: Option<StatusCmd>)
        ensures
            r is Some <==> 1 <= n <= 21,
            r matches Some(cmd) ==> cmd.number() == n,
    {
        match n {
            1 => Some(StatusCmd::STATUS_CURRENT_CMD),
            2 => Some(StatusCmd::STATUS_BASENAME),
            3 => Some(StatusCmd::STATUS_DIRNAME),
            4 => Some(StatusCmd::STATUS_FEATURES),
            5 => Some(StatusCmd::STATUS_FILENAME),
            6 => Some(StatusCmd::STATUS_FISH_PATH),
            7 => Some(StatusCmd::STATUS_FUNCTION),
            8 => Some(StatusCmd::STATUS_IS_BLOCK),
            9 => Some(StatusCmd::STATUS_IS_BREAKPOINT),
            10 => Some(StatusCmd::STATUS_IS_COMMAND_SUB),
            11 => Some(StatusCmd::STATUS_IS_FULL_JOB_CTRL),
            12 => Some(StatusCmd::STATUS_IS_INTERACTIVE),
            13 => Some(StatusCmd::STATUS_IS_INTERACTIVE_JOB_CTRL),
            14 => Some(StatusCmd::STATUS_IS_LOGIN),
            15 => Some(StatusCmd::STATUS_IS_NO_JOB_CTRL),
            16 => Some(StatusCmd::STATUS_LINE_NUMBER),
            17 => Some(StatusCmd::STATUS_SET_JOB_CONTROL),
            18 => Some(StatusCmd::STATUS_STACK_TRACE),
            19 => Some(StatusCmd::STATUS_TEST_FEATURE),
            20 => Some(StatusCmd::STATUS_CURRENT_COMMANDLINE),
            21 => Some(StatusCmd::STATUS_UNDEF),
            _ => None,
        }
    }

    /// The character that stands for the subcommand where an option has no letter: the one
    /// whose code is the subcommand's number.
    pub fn as_char(&self) -> (c: char)
        ensures
            c as u32 == self.number(),
    {
        let n: u8 = match self {
            StatusCmd::STATUS_CURRENT_CMD => 1,
            StatusCmd::STATUS_BASENAME => 2,
            StatusCmd::STATUS_DIRNAME => 3,
            StatusCmd::STATUS_FEATURES => 4,
            StatusCmd::STATUS_FILENAME => 5,
            StatusCmd::STATUS_FISH_PATH => 6,
            StatusCmd::STATUS_FUNCTION => 7,
            StatusCmd::STATUS_IS_BLOCK => 8,
            StatusCmd::STATUS_IS_BREAKPOINT => 9,
            StatusCmd::STATUS_IS_COMMAND_SUB => 10,
            StatusCmd::STATUS_IS_FULL_JOB_CTRL => 11,
            StatusCmd::STATUS_IS_INTERACTIVE => 12,
            StatusCmd::STATUS_IS_INTERACTIVE_JOB_CTRL => 13,
            StatusCmd::STATUS_IS_LOGIN => 14,
            StatusCmd::STATUS_IS_NO_JOB_CTRL => 15,
            StatusCmd::STATUS_LINE_NUMBER => 16,
            StatusCmd::STATUS_SET_JOB_CONTROL => 17,
            StatusCmd::STATUS_STACK_TRACE => 18,
            StatusCmd::STATUS_TEST_FEATURE => 19,
            StatusCmd::STATUS_CURRENT_COMMANDLINE => 20,
            StatusCmd::STATUS_UNDEF => 21,
        };
        n as char
    }

    /// The subcommand that goes by the name `s`.
    pub fn try_from(s: &str) -> (r: Result<StatusCmd, ()>)
        ensures
            r == match StatusCmd::named(s@) {
                Some(cmd) => Ok(cmd),
                None => Err(()),
            },
    {
        if same(s, "basename") || same(s, "current-basename") {
            Ok(StatusCmd::STATUS_BASENAME)
        } else if same(s, "current-command") {
            Ok(StatusCmd::STATUS_CURRENT_CMD)
        } else if same(s, "current-commandline") {
            Ok(StatusCmd::STATUS_CURRENT_COMMANDLINE)
        } else if same(s, "current-dirname") || same(s, "dirname") {
            Ok(StatusCmd::STATUS_DIRNAME)
        } else if same(s, "current-filename") || same(s, "filename") {
            Ok(StatusCmd::STATUS_FILENAME)
        } else if same(s, "current-function") || same(s, "function") {
            Ok(StatusCmd::STATUS_FUNCTION)
        } else if same(s, "current-line-number") || same(s, "line-number") {
            Ok(StatusCmd::STATUS_LINE_NUMBER)
        } else if same(s, "features") {
            Ok(StatusCmd::STATUS_FEATURES)
        } else if same(s, "fish-path") {
            Ok(StatusCmd::STATUS_FISH_PATH)
        } else if same(s, "is-block") {
            Ok(StatusCmd::STATUS_IS_BLOCK)
        } else if same(s, "is-breakpoint") {
            Ok(StatusCmd::STATUS_IS_BREAKPOINT)
        } else if same(s, "is-command-substitution") {
            Ok(StatusCmd::STATUS_IS_COMMAND_SUB)
        } else if same(s, "is-full-job-control") {
            Ok(StatusCmd::STATUS_IS_FULL_JOB_CTRL)
        } else if same(s, "is-interactive") {
            Ok(StatusCmd::STATUS_IS_INTERACTIVE)
        } else if same(s, "is-interactive-job-control") {
            Ok(StatusCmd::STATUS_IS_INTERACTIVE_JOB_CTRL)
        } else if same(s, "is-login") {
            Ok(StatusCmd::STATUS_IS_LOGIN)
        } else if same(s, "is-no-job-control") {
            Ok(StatusCmd::STATUS_IS_NO_JOB_CTRL)
        } else if same(s, "job-control") {
            Ok(StatusCmd::STATUS_SET_JOB_CONTROL)
        } else if same(s, "print-stack-trace") || same(s, "stack-trace") {
            Ok(StatusCmd::STATUS_STACK_TRACE)
        } else if same(s, "test-feature") {
            Ok(StatusCmd::STATUS_TEST_FEATURE)
        } else if same(s, "undef") {
            Ok(StatusCmd::STATUS_UNDEF)
        } else {
            Err(())
        }
    }

    /// The name by which messages call the subcommand.
    pub fn to_wstr(&self) -> (r: String)
        ensures
            r@ == self.name(),
    {
        let name: &str = match self {
            StatusCmd::STATUS_BASENAME => "basename",
            StatusCmd::STATUS_CURRENT_CMD => "current-command",
            StatusCmd::STATUS_CURRENT_COMMANDLINE => "current-commandline",
            StatusCmd::STATUS_DIRNAME => "current-dirname",
            StatusCmd::STATUS_FILENAME => "current-filename",
            StatusCmd::STATUS_FUNCTION => "current-function",
            StatusCmd::STATUS_LINE_NUMBER => "current-line-number",
            StatusCmd::STATUS_FEATURES => "features",
            StatusCmd::STATUS_FISH_PATH => "fish-path",
            StatusCmd::STATUS_IS_BLOCK => "is-block",
            StatusCmd::STATUS_IS_BREAKPOINT => "is-breakpoint",
            StatusCmd::STATUS_IS_COMMAND_SUB => "is-command-substitution",
            StatusCmd::STATUS_IS_FULL_JOB_CTRL => "is-full-job-control",
            StatusCmd::STATUS_IS_INTERACTIVE => "is-interactive",
            StatusCmd::STATUS_IS_INTERACTIVE_JOB_CTRL => "is-interactive-job-control",
            StatusCmd::STATUS_IS_LOGIN => "is-login",
            StatusCmd::STATUS_IS_NO_JOB_CTRL => "is-no-job-control",
            StatusCmd::STATUS_SET_JOB_CONTROL => "job-control",
            StatusCmd::STATUS_STACK_TRACE => "print-stack-trace",
            StatusCmd::STATUS_TEST_FEATURE => "test-feature",
            StatusCmd::STATUS_UNDEF => "undef",
        };
        name.to_owned()
    }
}

impl Default for StatusCmd {
    /// No subcommand.
    fn default() -> (r: StatusCmd)
        ensures
            r == StatusCmd::STATUS_UNDEF,
    {
        StatusCmd::STATUS_UNDEF
    }
}

/// A subcommand is known by its number: no two share one, and the numbers are 1 to 21.
pub proof fn law_number_identifies(a: StatusCmd, b: StatusCmd)
    ensures
        1 <= a.number() <= 21,
        a.number() == b.number() ==> a == b,
{
}

/// What tells the names of the subcommands apart: their lengths, and among names of one length
/// a few of their characters.
pub(crate) proof fn lemma_names_differ()
    ensures
        "basename"@.len() == 8,
        "basename"@[0] == 'b',
        "basename"@[1] == 'a',
        "basename"@[3] == 'e',
        "current-basename"@.len() == 16,
        "current-basename"@[0] == 'c',
        "current-basename"@[8] == 'b',
        "current-basename"@[9] == 'a',
        "current-command"@.len() == 15,
        "current-command"@[0] == 'c',
        "current-command"@[8] == 'c',
        "current-commandline"@.len() == 19,
        "current-commandline"@[0] == 'c',
        "current-commandline"@[8] == 'c',
        "current-dirname"@.len() == 15,
        "current-dirname"@[0] == 'c',
        "current-dirname"@[8] == 'd',
        "dirname"@.len() == 7,
        "dirname"@[0] == 'd',
        "current-filename"@.len() == 16,
        "current-filename"@[0] == 'c',
        "current-filename"@[8] == 'f',
        "current-filename"@[9] == 'i',
        "filename"@.len() == 8,
        "filename"@[0] == 'f',
        "filename"@[1] == 'i',
        "filename"@[3] == 'e',
        "current-function"@.len() == 16,
        "current-function"@[0] == 'c',
        "current-function"@[8] == 'f',
        "current-function"@[9] == 'u',
        "function"@.len() == 8,
        "function"@[0] == 'f',
        "function"@[1] == 'u',
        "function"@[3] == 'c',
        "current-line-number"@.len() == 19,
        "current-line-number"@[0] == 'c',
        "current-line-number"@[8] == 'l',
        "line-number"@.len() == 11,
        "line-number"@[0] == 'l',
        "features"@.len() == 8,
        "features"@[0] == 'f',
        "features"@[1] == 'e',
        "features"@[3] == 't',
        "fish-path"@.len() == 9,
        "fish-path"@[0] == 'f',
        "is-block"@.len() == 8,
        "is-block"@[0] == 'i',
        "is-block"@[1] == 's',
        "is-block"@[3] == 'b',
        "is-breakpoint"@.len() == 13,
        "is-breakpoint"@[0] == 'i',
        "is-command-substitution"@.len() == 23,
        "is-command-substitution"@[0] == 'i',
        "is-full-job-control"@.len() == 19,
        "is-full-job-control"@[0] == 'i',
        "is-full-job-control"@[8] == 'j',
        "is-interactive"@.len() == 14,
        "is-interactive"@[0] == 'i',
        "is-interactive-job-control"@.len() == 26,
        "is-interactive-job-control"@[0] == 'i',
        "is-login"@.len() == 8,
        "is-login"@[0] == 'i',
        "is-login"@[1] == 's',
        "is-login"@[3] == 'l',
        "is-no-job-control"@.len() == 17,
        "is-no-job-control"@[0] == 'i',
        "job-control"@.len() == 11,
        "job-control"@[0] == 'j',
        "print-stack-trace"@.len() == 17,
        "print-stack-trace"@[0] == 'p',
        "stack-trace"@.len() == 11,
        "stack-trace"@[0] == 's',
        "test-feature"@.len() == 12,
        "test-feature"@[0] == 't',
        "undef"@.len() == 5,
        "undef"@[0] == 'u',
{
    reveal_strlit("basename");
    reveal_strlit("current-basename");
    reveal_strlit("current-command");
    reveal_strlit("current-commandline");
    reveal_strlit("current-dirname");
    reveal_strlit("dirname");
    reveal_strlit("current-filename");
    reveal_strlit("filename");
    reveal_strlit("current-function");
    reveal_strlit("function");
    reveal_strlit("current-line-number");
    reveal_strlit("line-number");
    reveal_strlit("features");
    reveal_strlit("fish-path");
    reveal_strlit("is-block");
    reveal_strlit("is-breakpoint");
    reveal_strlit("is-command-substitution");
    reveal_strlit("is-full-job-control");
    reveal_strlit("is-interactive");
    reveal_strlit("is-interactive-job-control");
    reveal_strlit("is-login");
    reveal_strlit("is-no-job-control");
    reveal_strlit("job-control");
    reveal_strlit("print-stack-trace");
    reveal_strlit("stack-trace");
    reveal_strlit("test-feature");
    reveal_strlit("undef");
}

/// The name by which a subcommand is called is one of its own names: what is printed for it can
/// be typed for it.
pub proof fn law_name_is_understood(cmd: StatusCmd)
    ensures
        StatusCmd::named(cmd.name()) == Some(cmd),
{
    lemma_names_differ();
}

/// No name of a subcommand could be taken for an option.
pub proof fn law_names_are_no_options(s: Seq<char>)
    requires
        StatusCmd::named(s) is Some,
    ensures
        s.len() > 0,
        s[0] != '-',
{
    lemma_names_differ();
}

/// The names under which each subcommand is known, and no others.
pub proof fn law_names_mean(s: Seq<char>)
    ensures
        StatusCmd::named(s) == Some(StatusCmd::STATUS_BASENAME)
            <==> s == "basename"@ || s == "current-basename"@,
        StatusCmd::named(s) == Some(StatusCmd::STATUS_CURRENT_CMD)
            <==> s == "current-command"@,
        StatusCmd::named(s) == Some(StatusCmd::STATUS_CURRENT_COMMANDLINE)
            <==> s == "current-commandline"@,
        StatusCmd::named(s) == Some(StatusCmd::STATUS_DIRNAME)
            <==> s == "current-dirname"@ || s == "dirname"@,
        StatusCmd::named(s) == Some(StatusCmd::STATUS_FILENAME)
            <==> s == "current-filename"@ || s == "filename"@,
        StatusCmd::named(s) == Some(StatusCmd::STATUS_FUNCTION)
            <==> s == "current-function"@ || s == "function"@,
        StatusCmd::named(s) == Some(StatusCmd::STATUS_LINE_NUMBER)
            <==> s == "current-line-number"@ || s == "line-number"@,
        StatusCmd::named(s) == Some(StatusCmd::STATUS_FEATURES)
            <==> s == "features"@,
        StatusCmd::named(s) == Some(StatusCmd::STATUS_FISH_PATH)
            <==> s == "fish-path"@,
        StatusCmd::named(s) == Some(StatusCmd::STATUS_IS_BLOCK)
            <==> s == "is-block"@,
        StatusCmd::named(s) == Some(StatusCmd::STATUS_IS_BREAKPOINT)
            <==> s == "is-breakpoint"@,
        StatusCmd::named(s) == Some(StatusCmd::STATUS_IS_COMMAND_SUB)
            <==> s == "is-command-substitution"@,
        StatusCmd::named(s) == Some(StatusCmd::STATUS_IS_FULL_JOB_CTRL)
            <==> s == "is-full-job-control"@,
        StatusCmd::named(s) == Some(StatusCmd::STATUS_IS_INTERACTIVE)
            <==> s == "is-interactive"@,
        StatusCmd::named(s) == Some(StatusCmd::STATUS_IS_INTERACTIVE_JOB_CTRL)
            <==> s == "is-interactive-job-control"@,
        StatusCmd::named(s) == Some(StatusCmd::STATUS_IS_LOGIN)
            <==> s == "is-login"@,
        StatusCmd::named(s) == Some(StatusCmd::STATUS_IS_NO_JOB_CTRL)
            <==> s == "is-no-job-control"@,
        StatusCmd::named(s) == Some(StatusCmd::STATUS_SET_JOB_CONTROL)
            <==> s == "job-control"@,
        StatusCmd::named(s) == Some(StatusCmd::STATUS_STACK_TRACE)
            <==> s == "print-stack-trace"@ || s == "stack-trace"@,
        StatusCmd::named(s) == Some(StatusCmd::STATUS_TEST_FEATURE)
            <==> s == "test-feature"@,
        StatusCmd::named(s) == Some(StatusCmd::STATUS_UNDEF)
            <==> s == "undef"@,
{
    lemma_names_differ();
}

/// Of the names of a subcommand, messages use the one that comes first in the alphabet.
pub proof fn law_first_name_is_used(cmd: StatusCmd, s: Seq<char>)
    requires
        StatusCmd::named(s) == Some(cmd),
    ensures
        s == cmd.name() || cmd.name()[0] < s[0],
{
    lemma_names_differ();
}

/// The subcommands are numbered in this order, from one on.
pub proof fn law_numbers_follow_the_list(i: int)
    requires
        0 <= i < 21,
    ensures
        seq![
            StatusCmd::STATUS_CURRENT_CMD,
            StatusCmd::STATUS_BASENAME,
            StatusCmd::STATUS_DIRNAME,
            StatusCmd::STATUS_FEATURES,
            StatusCmd::STATUS_FILENAME,
            StatusCmd::STATUS_FISH_PATH,
            StatusCmd::STATUS_FUNCTION,
            StatusCmd::STATUS_IS_BLOCK,
            StatusCmd::STATUS_IS_BREAKPOINT,
            StatusCmd::STATUS_IS_COMMAND_SUB,
            StatusCmd::STATUS_IS_FULL_JOB_CTRL,
            StatusCmd::STATUS_IS_INTERACTIVE,
            StatusCmd::STATUS_IS_INTERACTIVE_JOB_CTRL,
            StatusCmd::STATUS_IS_LOGIN,
            StatusCmd::STATUS_IS_NO_JOB_CTRL,
            StatusCmd::STATUS_LINE_NUMBER,
            StatusCmd::STATUS_SET_JOB_CONTROL,
            StatusCmd::STATUS_STACK_TRACE,
            StatusCmd::STATUS_TEST_FEATURE,
            StatusCmd::STATUS_CURRENT_COMMANDLINE,
            StatusCmd::STATUS_UNDEF,
        ][i].number() == i + 1,
{
}

} // verus!
