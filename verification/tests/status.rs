use fish_status::features::Feature;
use fish_status::messages::Messages;
use fish_status::opts::{JobControl, StatusCmdOpts};
use fish_status::parser::{ExecutablePath, Parser};
use fish_status::status::{perform, prepare, print_fish_path, status, Plan};
use fish_status::status_cmd::StatusCmd;
use fish_status::streams::{BuiltinRequest, IoStreams};

fn feature(name: &str, groups: &str, description: &str, enabled: bool) -> Feature {
    Feature {
        name: name.to_string(),
        groups: groups.to_string(),
        description: description.to_string(),
        enabled,
    }
}

fn shell() -> Parser {
    Parser {
        login: false,
        job_control_mode: JobControl::interactive,
        interactive_session: true,
        is_subshell: false,
        is_block: false,
        is_breakpoint: false,
        stack_trace: "in function 'f'\n".to_string(),
        current_filename: "/home/user/script.fish".to_string(),
        func_names: vec![(1, "f".to_string()), (2, "g".to_string())],
        lineno: 42,
        status_vars_command: "make".to_string(),
        status_vars_commandline: "make all".to_string(),
        executable: ExecutablePath {
            path: "/usr/bin/fish".to_string(),
            errno: 0,
            real_path: Some("/opt/fish/bin/fish".to_string()),
            access: 0,
        },
        features: vec![
            feature("stderr-nocaret", "3.0", "^ no longer redirects stderr", true),
            feature("qmark-noglob", "3.0", "? no longer globs", false),
        ],
        messages: Messages::english(),
    }
}

struct Run {
    code: i32,
    out: String,
    err: String,
    requests: Vec<BuiltinRequest>,
    args: Vec<String>,
}

fn run_in(parser: &mut Parser, words: &[&str]) -> Run {
    let mut streams = IoStreams::new();
    let mut args: Vec<&str> = words.to_vec();
    let code = status(parser, &mut streams, &mut args);
    Run {
        code: code.unwrap(),
        out: streams.out,
        err: streams.err,
        requests: streams.requests,
        args: args.iter().map(|s| s.to_string()).collect(),
    }
}

fn run(words: &[&str]) -> Run {
    run_in(&mut shell(), words)
}

fn expect(words: &[&str], code: i32, out: &str, err: &str) {
    let r = run(words);
    assert_eq!(r.code, code, "{:?}", words);
    assert_eq!(r.out, out, "{:?}", words);
    assert_eq!(r.err, err, "{:?}", words);
    assert!(r.requests.is_empty());
}

#[test]
fn overview_without_subcommand() {
    expect(
        &["status"],
        0,
        "This is not a login shell\nJob control: Only on interactive jobs\nin function 'f'\n",
        "",
    );
    let mut parser = shell();
    parser.login = true;
    parser.job_control_mode = JobControl::none;
    assert_eq!(
        run_in(&mut parser, &["status"]).out,
        "This is a login shell\nJob control: Never\nin function 'f'\n"
    );
    parser.job_control_mode = JobControl::all;
    assert_eq!(
        run_in(&mut parser, &["status"]).out,
        "This is a login shell\nJob control: Always\nin function 'f'\n"
    );
}

#[test]
fn file_names() {
    expect(&["status", "filename"], 0, "/home/user/script.fish\n", "");
    expect(&["status", "current-filename"], 0, "/home/user/script.fish\n", "");
    expect(&["status", "-f"], 0, "/home/user/script.fish\n", "");
    expect(&["status", "basename"], 0, "script.fish\n", "");
    expect(&["status", "dirname"], 0, "/home/user\n", "");
    let mut parser = shell();
    parser.current_filename = String::new();
    for name in ["filename", "basename", "dirname"] {
        assert_eq!(run_in(&mut parser, &["status", name]).out, "Standard input\n");
    }
}

#[test]
fn function_at_level() {
    expect(&["status", "function"], 0, "f\n", "");
    expect(&["status", "-L2", "function"], 0, "g\n", "");
    expect(&["status", "function", "--level", "2"], 0, "g\n", "");
    expect(&["status", "function", "--level=0x2"], 0, "g\n", "");
    expect(&["status", "function", "-L", "3"], 0, "Not a function\n", "");
}

#[test]
fn bad_levels() {
    expect(&["status", "-L", "-1"], 2, "", "status: Invalid level value '-1'\n");
    expect(
        &["status", "-L", "99999999999"],
        2,
        "",
        "status: Invalid level value '99999999999'\n",
    );
    expect(&["status", "-L", "x"], 2, "", "status: x: invalid integer\n");
    expect(&["status", "-L", ""], 2, "", "status: : invalid integer\n");
}

#[test]
fn line_number() {
    expect(&["status", "line-number"], 0, "42\n", "");
    expect(&["status", "--line"], 0, "42\n", "");
    let mut parser = shell();
    parser.lineno = -7;
    assert_eq!(run_in(&mut parser, &["status", "-n"]).out, "-7\n");
    parser.lineno = i32::MIN;
    assert_eq!(run_in(&mut parser, &["status", "-n"]).out, "-2147483648\n");
    parser.lineno = 0;
    assert_eq!(run_in(&mut parser, &["status", "-n"]).out, "0\n");
}

#[test]
fn questions() {
    expect(&["status", "is-interactive"], 0, "", "");
    expect(&["status", "is-login"], 1, "", "");
    expect(&["status", "is-block"], 1, "", "");
    expect(&["status", "is-breakpoint"], 1, "", "");
    expect(&["status", "is-command-substitution"], 1, "", "");
    let mut parser = shell();
    parser.interactive_session = false;
    parser.login = true;
    parser.is_block = true;
    parser.is_breakpoint = true;
    parser.is_subshell = true;
    assert_eq!(run_in(&mut parser, &["status", "is-interactive"]).code, 1);
    assert_eq!(run_in(&mut parser, &["status", "-i"]).code, 1);
    assert_eq!(run_in(&mut parser, &["status", "is-login"]).code, 0);
    assert_eq!(run_in(&mut parser, &["status", "-l"]).code, 0);
    assert_eq!(run_in(&mut parser, &["status", "is-block"]).code, 0);
    assert_eq!(run_in(&mut parser, &["status", "-b"]).code, 0);
    assert_eq!(run_in(&mut parser, &["status", "is-breakpoint"]).code, 0);
    assert_eq!(run_in(&mut parser, &["status", "-c"]).code, 0);
}

#[test]
fn exactly_one_mode_holds() {
    for (mode, yes) in
        [(JobControl::all, 0), (JobControl::interactive, 1), (JobControl::none, 2)]
    {
        let mut parser = shell();
        parser.job_control_mode = mode;
        let names = ["is-full-job-control", "is-interactive-job-control", "is-no-job-control"];
        for (i, name) in names.iter().enumerate() {
            let code = if i == yes { 0 } else { 1 };
            assert_eq!(run_in(&mut parser, &["status", name]).code, code);
            let flag = format!("--{}", name);
            assert_eq!(run_in(&mut parser, &["status", flag.as_str()]).code, code);
        }
    }
}

#[test]
fn mode_set_is_seen() {
    for words in [
        vec!["status", "job-control", "full"],
        vec!["status", "-j", "full"],
        vec!["status", "-jfull"],
        vec!["status", "--job-control=full"],
        vec!["status", "--job", "full"],
    ] {
        let mut parser = shell();
        let r = run_in(&mut parser, &words);
        assert_eq!((r.code, r.out.as_str(), r.err.as_str()), (0, "", ""));
        assert_eq!(parser.job_control_mode, JobControl::all);
        assert_eq!(run_in(&mut parser, &["status", "is-full-job-control"]).code, 0);
    }
    let mut parser = shell();
    run_in(&mut parser, &["status", "job-control", "none"]);
    assert_eq!(parser.job_control_mode, JobControl::none);
    run_in(&mut parser, &["status", "job-control", "interactive"]);
    assert_eq!(parser.job_control_mode, JobControl::interactive);
}

#[test]
fn bad_modes() {
    let message = "status: Invalid job control mode 'some'\n";
    expect(&["status", "job-control", "some"], 1, "", message);
    expect(&["status", "-j", "some"], 1, "", message);
    let mut parser = shell();
    run_in(&mut parser, &["status", "job-control", "some"]);
    assert_eq!(parser.job_control_mode, JobControl::interactive);
}

#[test]
fn argument_counts() {
    expect(
        &["status", "is-login", "x"],
        2,
        "",
        "status: is-login: expected 0 arguments; got 1\n",
    );
    expect(
        &["status", "job-control"],
        2,
        "",
        "status: job-control: expected 1 arguments; got 0\n",
    );
    expect(
        &["status", "job-control", "a", "b"],
        2,
        "",
        "status: job-control: expected 1 arguments; got 2\n",
    );
    expect(
        &["status", "test-feature"],
        2,
        "",
        "status: test-feature: expected 1 arguments; got 0\n",
    );
    let many: Vec<&str> = vec!["x"; 12];
    let mut words = vec!["status", "dirname"];
    words.extend(many);
    expect(&words, 2, "", "status: current-dirname: expected 0 arguments; got 12\n");
}

#[test]
fn flag_form_of_job_control_takes_no_operand() {
    let mut parser = shell();
    let mut streams = IoStreams::new();
    let opts = StatusCmdOpts {
        level: 1,
        new_job_control_mode: Some(JobControl::all),
        status_cmd: StatusCmd::STATUS_SET_JOB_CONTROL,
        print_help: false,
    };
    let r = perform(&mut parser, &mut streams, &vec!["status", "x"], &opts, 1);
    assert_eq!(r, Some(2));
    assert_eq!(streams.err, "status: job-control: expected 0 arguments; got 1\n");
    assert_eq!(parser.job_control_mode, JobControl::interactive);
}

#[test]
fn unknown_subcommands() {
    expect(&["status", "nonsense"], 2, "", "status: nonsense: invalid subcommand\n");
    expect(&["status", "undef"], 2, "", "status: undef: invalid subcommand\n");
    // The message names the word behind the command, which need not be the operand.
    expect(&["status", "-L1", "nonsense"], 2, "", "status: -L1: invalid subcommand\n");
}

#[test]
fn two_choices_exclude_each_other() {
    expect(
        &["status", "-l", "-i"],
        1,
        "",
        "status: is-login is-interactive: options cannot be used together\n",
    );
    expect(
        &["status", "-l", "is-block"],
        1,
        "",
        "status: is-login is-block: options cannot be used together\n",
    );
    expect(
        &["status", "-ff"],
        1,
        "",
        "status: current-filename current-filename: options cannot be used together\n",
    );
    expect(
        &["status", "-l", "-j", "full"],
        1,
        "",
        "status: is-login job-control: options cannot be used together\n",
    );
}

#[test]
fn help_comes_first() {
    for words in [
        vec!["status", "-h"],
        vec!["status", "--help"],
        vec!["status", "nonsense", "--help"],
        vec!["status", "-l", "-h", "is-block"],
    ] {
        let r = run(&words);
        assert_eq!((r.code, r.out.as_str(), r.err.as_str()), (0, "", ""));
        assert_eq!(r.requests.len(), 1);
        assert!(matches!(&r.requests[0], BuiltinRequest::PrintHelp { cmd } if cmd == "status"));
    }
}

#[test]
fn missing_and_unknown_options() {
    let r = run(&["status", "is-login", "-L"]);
    assert_eq!(r.code, 2);
    assert!(matches!(
        &r.requests[0],
        BuiltinRequest::MissingArgument { cmd, opt, print_hints: false }
            if cmd == "status" && opt == "-L"
    ));
    let r = run(&["status", "--level"]);
    assert_eq!(r.code, 2);
    assert!(matches!(
        &r.requests[0],
        BuiltinRequest::MissingArgument { opt, .. } if opt == "--level"
    ));
    for word in ["-x", "-hx", "--nonsense", "--current", "--help=yes", "-:"] {
        let r = run(&["status", word]);
        assert_eq!(r.code, 2, "{}", word);
        assert_eq!(r.requests.len(), 1);
        assert!(matches!(
            &r.requests[0],
            BuiltinRequest::UnknownOption { cmd, opt, print_hints: false }
                if cmd == "status" && opt == word
        ));
    }
}

#[test]
fn words_are_only_moved() {
    let r = run(&["status", "function", "-L", "2", "x", "--", "-y"]);
    assert_eq!(r.args, ["status", "-L", "2", "--", "function", "x", "-y"]);
    assert_eq!(r.err, "status: current-function: expected 0 arguments; got 2\n");
    let r = run(&["status", "--", "-l"]);
    assert_eq!(r.args, ["status", "--", "-l"]);
    assert_eq!((r.code, r.err.as_str()), (2, "status: --: invalid subcommand\n"));
    let r = run(&["status", "-"]);
    assert_eq!((r.code, r.err.as_str()), (2, "status: -: invalid subcommand\n"));
}

#[test]
fn plans() {
    let mut streams = IoStreams::new();
    let mut args = vec!["status", "function", "-L7"];
    match prepare(&Messages::english(), &mut streams, &mut args) {
        Plan::Perform { opts, optind } => {
            assert_eq!(optind, 3);
            assert_eq!(opts.level, 7);
            assert_eq!(opts.status_cmd, StatusCmd::STATUS_FUNCTION);
            assert_eq!(opts.new_job_control_mode, None);
        }
        Plan::Finished { .. } => panic!("nothing to perform"),
    }
    assert_eq!(args, ["status", "-L7", "function"]);
    let mut args = vec!["status", "nonsense"];
    assert_eq!(prepare(&Messages::english(), &mut streams, &mut args), Plan::Finished { code: 2 });
}

#[test]
fn feature_list() {
    let list = "stderr-nocaret on  3.0 ^ no longer redirects stderr\n\
                qmark-noglob   off 3.0 ? no longer globs\n";
    expect(&["status", "features"], 0, list, "");
    // Operands are not looked at.
    expect(&["status", "features", "x"], 0, list, "");
    let mut parser = shell();
    parser.features = Vec::new();
    assert_eq!(run_in(&mut parser, &["status", "features"]).out, "");
}

#[test]
fn feature_questions() {
    expect(&["status", "test-feature", "stderr-nocaret"], 0, "", "");
    expect(&["status", "test-feature", "qmark-noglob"], 1, "", "");
    expect(&["status", "test-feature", "nonsense"], 2, "", "");
    let mut parser = shell();
    parser.features.push(feature("qmark-noglob", "3.1", "again", true));
    assert_eq!(run_in(&mut parser, &["status", "test-feature", "qmark-noglob"]).code, 0);
}

#[test]
fn traces_and_commands() {
    expect(&["status", "print-stack-trace"], 0, "in function 'f'\n", "");
    expect(&["status", "-t"], 0, "in function 'f'\n", "");
    expect(&["status", "current-command"], 0, "make\n", "");
    expect(&["status", "current-commandline"], 0, "make all\n", "");
    let mut parser = shell();
    parser.status_vars_command = String::new();
    parser.status_vars_commandline = String::new();
    assert_eq!(run_in(&mut parser, &["status", "current-command"]).out, "fish\n");
    assert_eq!(run_in(&mut parser, &["status", "current-commandline"]).out, "\n");
}

#[test]
fn path_of_the_shell() {
    expect(&["status", "fish-path"], 0, "/opt/fish/bin/fish\n", "");
    expect(&["status", "--fish-path"], 0, "/opt/fish/bin/fish\n", "");
    let mut parser = shell();
    parser.executable.access = -1;
    assert_eq!(run_in(&mut parser, &["status", "fish-path"]).out, "/usr/bin/fish\n");
    parser.executable.access = 0;
    parser.executable.real_path = None;
    assert_eq!(run_in(&mut parser, &["status", "fish-path"]).out, "/usr/bin/fish\n");
    parser.executable.path = "fish".to_string();
    parser.executable.real_path = Some("/opt/fish/bin/fish".to_string());
    assert_eq!(run_in(&mut parser, &["status", "fish-path"]).out, "fish\n");
}

#[test]
fn unknown_path_of_the_shell() {
    let mut parser = shell();
    parser.executable.path = String::new();
    parser.executable.errno = libc::ENOENT;
    let r = run_in(&mut parser, &["status", "fish-path"]);
    assert_eq!((r.code, r.out.as_str()), (0, "\n"));
    assert_eq!(
        r.err,
        "status: Could not get executable path: 'ENOENT: No such file or directory'\n"
    );
    parser.executable.errno = 0;
    let r = run_in(&mut parser, &["status", "fish-path"]);
    assert_eq!(
        r.err,
        "status: Could not get executable path: 'UnknownErrno: Unknown errno'\n"
    );
    let mut streams = IoStreams::new();
    print_fish_path(&mut streams, &parser.messages, "s", &parser.executable, "why");
    assert_eq!(streams.err, "s: Could not get executable path: 'why'\n");
    assert_eq!(streams.out, "\n");
}

#[test]
fn failure_leaves_no_trace() {
    for words in [
        vec!["status", "nonsense"],
        vec!["status", "-l", "-i"],
        vec!["status", "job-control", "some"],
        vec!["status", "is-login"],
        vec!["status", "-x"],
    ] {
        let mut parser = shell();
        let r = run_in(&mut parser, &words);
        assert_ne!(r.code, 0);
        assert_eq!(r.out, "");
        assert_eq!(parser.job_control_mode, JobControl::interactive);
    }
}

#[test]
fn other_names_of_the_command() {
    expect(&["s", "nonsense"], 2, "", "s: nonsense: invalid subcommand\n");
}

#[test]
fn other_languages() {
    let mut parser = shell();
    parser.messages.no_login_shell = "Keine Login-Shell\n".to_string();
    parser.messages.mode_interactive = "Nur interaktive".to_string();
    parser.messages.job_control = "Jobkontrolle: %ls!\n".to_string();
    parser.messages.standard_input = "Standardeingabe".to_string();
    parser.messages.not_a_function = "Keine Funktion".to_string();
    parser.messages.arg_count2 = "%ls: %ls: %d Argumente erwartet, %d erhalten\n".to_string();
    parser.messages.combo2_exclusive = "%ls: %ls, %ls: nicht zusammen\n".to_string();
    parser.messages.invalid_subcmd = "%ls: %ls kenne ich nicht\n".to_string();
    parser.messages.not_number = "%ls: keine Zahl: %ls\n".to_string();
    parser.messages.feature_line = "%-*ls|%-3s|%ls|%ls\n".to_string();
    assert_eq!(
        run_in(&mut parser, &["status"]).out,
        "Keine Login-Shell\nJobkontrolle: Nur interaktive!\nin function 'f'\n"
    );
    assert_eq!(
        run_in(&mut parser, &["status", "is-login", "x"]).err,
        "status: is-login: 0 Argumente erwartet, 1 erhalten\n"
    );
    assert_eq!(
        run_in(&mut parser, &["status", "-l", "-i"]).err,
        "status: is-login, is-interactive: nicht zusammen\n"
    );
    assert_eq!(
        run_in(&mut parser, &["status", "nonsense"]).err,
        "status: nonsense kenne ich nicht\n"
    );
    assert_eq!(run_in(&mut parser, &["status", "-Lx"]).err, "status: keine Zahl: x\n");
    assert_eq!(run_in(&mut parser, &["status", "function", "-L9"]).out, "Keine Funktion\n");
    assert_eq!(
        run_in(&mut parser, &["status", "features"]).out,
        "stderr-nocaret |on |3.0|^ no longer redirects stderr\n\
         qmark-noglob   |off|3.0|? no longer globs\n"
    );
    parser.current_filename = String::new();
    assert_eq!(run_in(&mut parser, &["status", "filename"]).out, "Standardeingabe\n");
}

#[test]
fn letters_do_what_names_do() {
    for (letter, name) in [
        ("-b", "is-block"),
        ("-c", "is-command-substitution"),
        ("-i", "is-interactive"),
        ("-l", "is-login"),
        ("-f", "filename"),
        ("-n", "line-number"),
        ("-t", "stack-trace"),
    ] {
        let a = run(&["status", letter]);
        let b = run(&["status", name]);
        assert_eq!((a.code, a.out, a.err), (b.code, b.out, b.err));
    }
}
