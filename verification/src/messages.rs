//! The texts and formats that the builtin speaks by, in the language of its user.

use vstd::prelude::*;

verus! {

/// The texts and formats, each as it was looked up in the catalogue of the user's language.
///
/// A format holds the directives of the English one.
#[derive(Debug)]
pub struct Messages {
    /// That two options or subcommands rule each other out.
    pub combo2_exclusive: String,
    /// That a subcommand was given the wrong number of arguments.
    pub arg_count2: String,
    /// That there is no such subcommand.
    pub invalid_subcmd: String,
    /// That an integer was expected.
    pub not_number: String,
    /// That an integer cannot be a level.
    pub invalid_level: String,
    /// That there is no such job control mode.
    pub invalid_job_control_mode: String,
    /// That the path of the running shell is not known.
    pub no_executable_path: String,
    /// What there is to say of a feature.
    pub feature_line: String,
    /// That this is a login shell.
    pub login_shell: String,
    /// That this is no login shell.
    pub no_login_shell: String,
    /// That only interactive jobs are under job control.
    pub mode_interactive: String,
    /// That no job is under job control.
    pub mode_none: String,
    /// That all jobs are under job control.
    pub mode_all: String,
    /// Which jobs are under job control.
    pub job_control: String,
    /// What the standard input is called.
    pub standard_input: String,
    /// That no function is being run.
    pub not_a_function: String,
    /// A text on a line of its own.
    pub text_line: String,
    /// A number on a line of its own.
    pub number_line: String,
}

impl Messages {
    /// Whether the texts are the English ones, by which the others are looked up.
    pub open spec fn is_english(self) -> bool {
        &&& self.combo2_exclusive@ == "%ls: %ls %ls: options cannot be used together\n"@
        &&& self.arg_count2@ == "%ls: %ls: expected %d arguments; got %d\n"@
        &&& self.invalid_subcmd@ == "%ls: %ls: invalid subcommand\n"@
        &&& self.not_number@ == "%ls: %ls: invalid integer\n"@
        &&& self.invalid_level@ == "%ls: Invalid level value '%ls'\n"@
        &&& self.invalid_job_control_mode@ == "%ls: Invalid job control mode '%ls'\n"@
        &&& self.no_executable_path@ == "%ls: Could not get executable path: '%s'\n"@
        &&& self.feature_line@ == "%-*ls%-3s %ls %ls\n"@
        &&& self.login_shell@ == "This is a login shell\n"@
        &&& self.no_login_shell@ == "This is not a login shell\n"@
        &&& self.mode_interactive@ == "Only on interactive jobs"@
        &&& self.mode_none@ == "Never"@
        &&& self.mode_all@ == "Always"@
        &&& self.job_control@ == "Job control: %ls\n"@
        &&& self.standard_input@ == "Standard input"@
        &&& self.not_a_function@ == "Not a function"@
        &&& self.text_line@ == "%ls\n"@
        &&& self.number_line@ == "%d\n"@
    }

    /// Whether every complaint ends a line, as it does in English.
    pub open spec fn complaints_are_lines(self) -> bool {
        &&& ends_line(self.combo2_exclusive@)
        &&& ends_line(self.arg_count2@)
        &&& ends_line(self.invalid_subcmd@)
        &&& ends_line(self.not_number@)
        &&& ends_line(self.invalid_level@)
        &&& ends_line(self.invalid_job_control_mode@)
        &&& ends_line(self.no_executable_path@)
    }

    /// The English texts.
    pub fn english() -> (r: Messages)
        ensures
            r.is_english(),
    {
        Messages {
            combo2_exclusive: "%ls: %ls %ls: options cannot be used together\n".to_owned(),
            arg_count2: "%ls: %ls: expected %d arguments; got %d\n".to_owned(),
            invalid_subcmd: "%ls: %ls: invalid subcommand\n".to_owned(),
            not_number: "%ls: %ls: invalid integer\n".to_owned(),
            invalid_level: "%ls: Invalid level value '%ls'\n".to_owned(),
            invalid_job_control_mode: "%ls: Invalid job control mode '%ls'\n".to_owned(),
            no_executable_path: "%ls: Could not get executable path: '%s'\n".to_owned(),
            feature_line: "%-*ls%-3s %ls %ls\n".to_owned(),
            login_shell: "This is a login shell\n".to_owned(),
            no_login_shell: "This is not a login shell\n".to_owned(),
            mode_interactive: "Only on interactive jobs".to_owned(),
            mode_none: "Never".to_owned(),
            mode_all: "Always".to_owned(),
            job_control: "Job control: %ls\n".to_owned(),
            standard_input: "Standard input".to_owned(),
            not_a_function: "Not a function".to_owned(),
            text_line: "%ls\n".to_owned(),
            number_line: "%d\n".to_owned(),
        }
    }
}

/// Whether `s` ends a line.
pub open spec fn ends_line(s: Seq<char>) -> bool {
    s.len() > 0 && s.last() == '\n'
}

/// In English every complaint ends a line.
pub proof fn law_english_complaints_are_lines(messages: Messages)
    requires
        messages.is_english(),
    ensures
        messages.complaints_are_lines(),
{
    reveal_strlit("%ls: %ls %ls: options cannot be used together\n");
    reveal_strlit("%ls: %ls: expected %d arguments; got %d\n");
    reveal_strlit("%ls: %ls: invalid subcommand\n");
    reveal_strlit("%ls: %ls: invalid integer\n");
    reveal_strlit("%ls: Invalid level value '%ls'\n");
    reveal_strlit("%ls: Invalid job control mode '%ls'\n");
    reveal_strlit("%ls: Could not get executable path: '%s'\n");
}

} // verus!
