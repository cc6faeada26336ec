//! The state of the shell, as far as `status` asks for it.

use libc::c_int;
use vstd::prelude::*;

use crate::features::Feature;
use crate::messages::Messages;
use crate::opts::JobControl;

verus! {

/// Where the running shell lies.
#[derive(Debug)]
pub struct ExecutablePath {
    /// The path of the executable; empty if it could not be found out.
    pub path: String,
    /// The number of the system's last error.
    pub errno: i32,
    /// The canonical form of an absolute path, if it has one.
    pub real_path: Option<String>,
    /// What the system returned when it was asked whether there is something at `real_path`:
    /// zero if there is.
    pub access: c_int,
}

/// The state of the shell when `status` is called.
#[derive(Debug)]
pub struct Parser {
    /// Whether this is a login shell.
    pub login: bool,
    /// Which jobs are under job control.
    pub job_control_mode: JobControl,
    /// Whether the session is interactive.
    pub interactive_session: bool,
    /// Whether a command substitution is being run.
    pub is_subshell: bool,
    /// Whether a block of code is being run.
    pub is_block: bool,
    /// Whether a breakpoint has been reached.
    pub is_breakpoint: bool,
    /// The calls that led here, in words.
    pub stack_trace: String,
    /// The file that is being run; empty if it is the standard input.
    pub current_filename: String,
    /// The functions that are being run, by the level at which each is found.
    pub func_names: Vec<(i32, String)>,
    /// The line that is being run.
    pub lineno: i32,
    /// The command that is being run.
    pub status_vars_command: String,
    /// The command line that is being run.
    pub status_vars_commandline: String,
    /// Where the running shell lies.
    pub executable: ExecutablePath,
    /// The feature flags.
    pub features: Vec<Feature>,
    /// The texts in the language of the user.
    pub messages: Messages,
}

/// The name of the function at the given level, if there is one.
pub open spec fn func_name(names: Seq<(i32, String)>, level: i32) -> Option<Seq<char>>
    decreases names.len(),
{
    if names.len() == 0 {
        None
    } else if names[0].0 == level {
        Some(names[0].1@)
    } else {
        func_name(names.skip(1), level)
    }
}

impl Parser {
    /// The name of the function at the given level, if there is one.
    pub fn get_func_name(&self, level: i32) -> (r: Option<&str>)
        ensures
            match r {
                Some(name) => func_name(self.func_names@, level) == Some(name@),
                None => func_name(self.func_names@, level) is None,
            },
    {
        let mut i: usize = 0;
        assert(self.func_names@.skip(0) =~= self.func_names@);
        while i < self.func_names.len()
            invariant
                i <= self.func_names@.len(),
                func_name(self.func_names@.skip(i as int), level) == func_name(
                    self.func_names@,
                    level,
                ),
            decreases self.func_names@.len() - i,
        {
            if self.func_names[i].0 == level {
                return Some(self.func_names[i].1.as_str());
            }
            assert(self.func_names@.skip(i as int).skip(1) =~= self.func_names@.skip(i + 1));
            i = i + 1;
        }
        None
    }
}

/// The name that is found for a level is the one listed with it, and the first of several; where
/// none is listed with it, none is found.
pub proof fn law_functions_are_found_by_level(names: Seq<(i32, String)>, level: i32)
    ensures
        forall|i: int|
            0 <= i < names.len() && (#[trigger] names[i]).0 == level && (forall|j: int|
                0 <= j < i ==> (#[trigger] names[j]).0 != level) ==> func_name(names, level)
                == Some(names[i].1@),
        (forall|i: int| 0 <= i < names.len() ==> (#[trigger] names[i]).0 != level) ==> func_name(
            names,
            level,
        ) is None,
    decreases names.len(),
{
    if names.len() > 0 && names[0].0 != level {
        let later = names.skip(1);
        law_functions_are_found_by_level(later, level);
        assert(forall|i: int| 0 <= i < later.len() ==> #[trigger] later[i] == names[i + 1]);
        assert forall|i: int|
            0 <= i < names.len() && (#[trigger] names[i]).0 == level && (forall|j: int|
                0 <= j < i ==> (#[trigger] names[j]).0 != level) implies func_name(names, level)
            == Some(names[i].1@) by {
            assert(later[i - 1].0 == level);
            assert forall|j: int| 0 <= j < i - 1 implies (#[trigger] later[j]).0 != level by {
                assert(names[j + 1].0 != level);
            }
        }
        if forall|i: int| 0 <= i < names.len() ==> (#[trigger] names[i]).0 != level {
            assert forall|i: int| 0 <= i < later.len() implies (#[trigger] later[i]).0
                != level by {
                assert(names[i + 1].0 != level);
            }
        }
    }
}

} // verus!
