//! What the options of `status` come to.

use vstd::prelude::*;

use crate::messages::Messages;
use crate::shared;
use crate::status_cmd::StatusCmd;
use crate::text::same;

verus! {

/// Which jobs are put under job control.
#[allow(non_camel_case_types)]
#[derive(Clone, Copy, Debug, PartialEq, Eq, Structural)]
pub enum JobControl {
    /// Every job.
    all,
    /// Only the jobs of an interactive session.
    interactive,
    /// No job.
    none,
}

impl JobControl {
    /// The mode that goes by the name `s`, if there is one.
    pub open spec fn named(s: Seq<char>) -> Option<JobControl> {
        if s == "full"@ {
            Some(JobControl::all)
        } else if s == "interactive"@ {
            Some(JobControl::interactive)
        } else if s == "none"@ {
            Some(JobControl::none)
        } else {
            None
        }
    }

    /// The mode that goes by the name `s`.
    pub fn try_from(s: &str) -> (r: Result<JobControl, ()>)
        ensures
            r == match JobControl::named(s@) {
                Some(mode) => Ok(mode),
                None => Err(()),
            },
    {
        if same(s, "full") {
            Ok(JobControl::all)
        } else if same(s, "interactive") {
            Ok(JobControl::interactive)
        } else if same(s, "none") {
            Ok(JobControl::none)
        } else {
            Err(())
        }
    }
}

/// What the options of one call have asked for.
#[derive(Clone, Copy, Debug, PartialEq, Eq, Structural)]
pub struct StatusCmdOpts {
    /// How many function calls to look past.
    pub level: i32,
    /// The job control mode to set, where the flag was used to give it.
    pub new_job_control_mode: Option<JobControl>,
    /// The subcommand, as far as one was chosen.
    pub status_cmd: StatusCmd,
    /// Whether help was asked for.
    pub print_help: bool,
}

impl StatusCmdOpts {
    /// What holds before any option is read.
    pub open spec fn initial() -> StatusCmdOpts {
        StatusCmdOpts {
            level: 1,
            new_job_control_mode: None,
            status_cmd: StatusCmd::STATUS_UNDEF,
            print_help: false,
        }
    }

    /// What holds however many options have been read: the level is not negative, and a job
    /// control mode was given only if it is to be set.
    pub open spec fn valid(self) -> bool {
        &&& self.level >= 0
        &&& self.new_job_control_mode is Some ==> self.status_cmd
            == StatusCmd::STATUS_SET_JOB_CONTROL
    }

    /// What holds of options that could all be read: a job control mode was given exactly if it
    /// is to be set.
    pub open spec fn mode_matches_cmd(self) -> bool {
        self.new_job_control_mode is Some <==> self.status_cmd == StatusCmd::STATUS_SET_JOB_CONTROL
    }

    /// Chooses a subcommand, once. A second choice is refused and changes nothing, also where
    /// it repeats the first.
    pub fn set_status_cmd(&mut self, messages: &Messages, cmd: &str, sub_cmd: StatusCmd) -> (r:
        Result<(), String>)
        ensures
            r is Ok <==> old(self).status_cmd == StatusCmd::STATUS_UNDEF,
            r is Ok ==> *final(self) == (StatusCmdOpts { status_cmd: sub_cmd, ..*old(self) }),
            r matches Err(message) ==> {
                &&& message@ == shared::combo2_exclusive(
                    *messages,
                    cmd@,
                    old(self).status_cmd.name(),
                    sub_cmd.name(),
                )
                &&& *final(self) == *old(self)
            },
    {
        if self.status_cmd != StatusCmd::STATUS_UNDEF {
            return Err(
                shared::combo2_exclusive_text(
                    messages,
                    cmd,
                    self.status_cmd.to_wstr().as_str(),
                    sub_cmd.to_wstr().as_str(),
                ),
            );
        }
        self.status_cmd = sub_cmd;
        Ok(())
    }
}

impl Default for StatusCmdOpts {
    fn default() -> (r: StatusCmdOpts)
        ensures
            r == StatusCmdOpts::initial(),
    {
        StatusCmdOpts {
            level: 1,
            new_job_control_mode: None,
            status_cmd: StatusCmd::STATUS_UNDEF,
            print_help: false,
        }
    }
}

/// The job control modes are called `full`, `interactive` and `none`, and by no other name.
pub proof fn law_mode_names(s: Seq<char>)
    ensures
        JobControl::named(s) == Some(JobControl::all) <==> s == "full"@,
        JobControl::named(s) == Some(JobControl::interactive) <==> s == "interactive"@,
        JobControl::named(s) == Some(JobControl::none) <==> s == "none"@,
{
    reveal_strlit("full");
    reveal_strlit("interactive");
    reveal_strlit("none");
    assert("full"@[0] == 'f' && "none"@[0] == 'n');
}

/// Before any option is read the level is one, and nothing has been asked for.
pub proof fn law_nothing_is_asked_for_at_first()
    ensures
        StatusCmdOpts::initial().level == 1,
        StatusCmdOpts::initial().new_job_control_mode is None,
        StatusCmdOpts::initial().status_cmd == StatusCmd::STATUS_UNDEF,
        !StatusCmdOpts::initial().print_help,
{
}

} // verus!
