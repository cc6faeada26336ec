use fish_status::cmdline::{long_options, parse_cmd_opts, SHORT_OPTIONS};
use fish_status::features::{print_features, test_feature, Feature, TestFeatureRetVal};
use fish_status::messages::Messages;
use fish_status::opts::{JobControl, StatusCmdOpts};
use fish_status::printf::{sprintf, FormatArg};
use fish_status::status_cmd::StatusCmd;
use fish_status::streams::IoStreams;
use fish_status::wcstoi::{fish_wcstoi, Error};
use fish_status::wgetopt::WGetopter;
use fish_status::wutil::{wbasename, wdirname};

#[test]
fn names_are_understood() {
    for n in 1..22 {
        let cmd = StatusCmd::from_u32(n).unwrap();
        assert_eq!(StatusCmd::try_from(cmd.to_wstr().as_str()), Ok(cmd));
        assert_eq!(cmd.as_char() as u32, n);
    }
    assert_eq!(StatusCmd::from_u32(0), None);
    assert_eq!(StatusCmd::from_u32(22), None);
    assert_eq!(StatusCmd::try_from("nonsense"), Err(()));
    assert_eq!(StatusCmd::default(), StatusCmd::STATUS_UNDEF);
}

#[test]
fn aliases() {
    for (alias, cmd) in [
        ("basename", StatusCmd::STATUS_BASENAME),
        ("current-basename", StatusCmd::STATUS_BASENAME),
        ("dirname", StatusCmd::STATUS_DIRNAME),
        ("current-dirname", StatusCmd::STATUS_DIRNAME),
        ("filename", StatusCmd::STATUS_FILENAME),
        ("current-filename", StatusCmd::STATUS_FILENAME),
        ("function", StatusCmd::STATUS_FUNCTION),
        ("line-number", StatusCmd::STATUS_LINE_NUMBER),
        ("stack-trace", StatusCmd::STATUS_STACK_TRACE),
        ("print-stack-trace", StatusCmd::STATUS_STACK_TRACE),
        ("job-control", StatusCmd::STATUS_SET_JOB_CONTROL),
    ] {
        assert_eq!(StatusCmd::try_from(alias), Ok(cmd));
    }
}

#[test]
fn flags_agree_with_names() {
    for option in long_options() {
        if let Ok(cmd) = StatusCmd::try_from(option.name) {
            let word = format!("--{}", option.name);
            let mut args = vec!["status", word.as_str(), "none"];
            let mut opts = StatusCmdOpts::default();
            let mut optind = 0;
            let mut streams = IoStreams::new();
            let r = parse_cmd_opts(&Messages::english(), &mut opts, &mut optind, &mut args, &mut streams);
            assert_eq!(r, Some(0));
            assert_eq!(opts.status_cmd, cmd);
        }
    }
}

#[test]
fn choosing_twice() {
    let mut opts = StatusCmdOpts::default();
    assert_eq!(opts.set_status_cmd(&Messages::english(), "status", StatusCmd::STATUS_IS_LOGIN), Ok(()));
    assert_eq!(
        opts.set_status_cmd(&Messages::english(), "status", StatusCmd::STATUS_IS_BLOCK),
        Err("status: is-login is-block: options cannot be used together\n".to_string())
    );
    assert_eq!(opts.status_cmd, StatusCmd::STATUS_IS_LOGIN);
    assert_eq!(opts.level, 1);
}

#[test]
fn optind_stays_where_options_cannot_be_read() {
    let mut args = vec!["status", "-x"];
    let mut opts = StatusCmdOpts::default();
    let mut optind = 5;
    let mut streams = IoStreams::new();
    assert_eq!(parse_cmd_opts(&Messages::english(), &mut opts, &mut optind, &mut args, &mut streams), Some(2));
    assert_eq!(optind, 5);
    let mut args = vec!["status", "-L3", "x"];
    assert_eq!(parse_cmd_opts(&Messages::english(), &mut opts, &mut optind, &mut args, &mut streams), Some(0));
    assert_eq!((optind, opts.level), (2, 3));
}

#[test]
fn reading_options_one_by_one() {
    let longopts = long_options();
    let mut args = vec!["status", "a", "-lfL", "3", "b", "--job=x", "c"];
    let mut w = WGetopter::new(SHORT_OPTIONS, &longopts);
    assert_eq!(w.wgetopt_long(&mut args), Some('l'));
    assert_eq!(w.wgetopt_long(&mut args), Some('f'));
    assert_eq!(w.woptarg, None);
    assert_eq!(w.wgetopt_long(&mut args), Some('L'));
    assert_eq!(w.woptarg, Some("3"));
    assert_eq!(w.wgetopt_long(&mut args), Some('j'));
    assert_eq!(w.woptarg, Some("x"));
    assert_eq!(w.wgetopt_long(&mut args), None);
    assert_eq!(args, ["status", "-lfL", "3", "--job=x", "a", "b", "c"]);
    assert_eq!(w.woptind, 4);
}

#[test]
fn job_control_modes() {
    assert_eq!(JobControl::try_from("full"), Ok(JobControl::all));
    assert_eq!(JobControl::try_from("interactive"), Ok(JobControl::interactive));
    assert_eq!(JobControl::try_from("none"), Ok(JobControl::none));
    assert_eq!(JobControl::try_from("all"), Err(()));
}

#[test]
fn integers() {
    assert_eq!(fish_wcstoi("0"), Ok(0));
    assert_eq!(fish_wcstoi("  12"), Ok(12));
    assert_eq!(fish_wcstoi("+12"), Ok(12));
    assert_eq!(fish_wcstoi("-12"), Ok(-12));
    assert_eq!(fish_wcstoi("0x1F"), Ok(31));
    assert_eq!(fish_wcstoi("-0123"), Ok(-83));
    assert_eq!(fish_wcstoi("456x"), Ok(456));
    assert_eq!(fish_wcstoi("2147483647"), Ok(i32::MAX));
    assert_eq!(fish_wcstoi("-2147483648"), Ok(i32::MIN));
    assert_eq!(fish_wcstoi("2147483648"), Err(Error::Overflow));
    assert_eq!(fish_wcstoi("-2147483649"), Err(Error::Overflow));
    assert_eq!(fish_wcstoi("99999999999999999999999"), Err(Error::Overflow));
    assert_eq!(fish_wcstoi(""), Err(Error::Empty));
    assert_eq!(fish_wcstoi(" \t\n"), Err(Error::Empty));
    assert_eq!(fish_wcstoi("x"), Err(Error::InvalidChar));
    assert_eq!(fish_wcstoi("+-0"), Err(Error::InvalidChar));
    assert_eq!(fish_wcstoi("0x"), Err(Error::InvalidChar));
    assert_eq!(fish_wcstoi("08"), Err(Error::InvalidChar));
}

#[test]
fn base_names() {
    for (path, name) in [
        ("", "."),
        ("/", "/"),
        ("//", "/"),
        ("foo//", "foo"),
        ("foo/", "foo"),
        ("foo", "foo"),
        ("/foo/bar.txt", "bar.txt"),
    ] {
        assert_eq!(wbasename(path), name);
    }
}

#[test]
fn directory_names() {
    for (path, name) in [
        ("", "."),
        ("foo", "."),
        ("foo//", "."),
        ("/", "/"),
        ("//", "//"),
        ("///", "/"),
        ("/foo", "/"),
        ("//foo", "/"),
        ("foo/bar", "foo"),
        ("foo//bar//", "foo"),
        ("/foo/bar/baz", "/foo/bar"),
    ] {
        assert_eq!(wdirname(path), name);
    }
}

#[test]
fn features_in_columns() {
    let features = vec![
        Feature {
            name: "a".to_string(),
            groups: "g".to_string(),
            description: "d".to_string(),
            enabled: true,
        },
        Feature {
            name: "long".to_string(),
            groups: "g".to_string(),
            description: "d".to_string(),
            enabled: false,
        },
    ];
    let mut streams = IoStreams::new();
    print_features(&mut streams, &Messages::english(), &features);
    assert_eq!(streams.out, "a    on  g d\nlong off g d\n");
    assert_eq!(test_feature(&features, "a"), TestFeatureRetVal::TEST_FEATURE_ON);
    assert_eq!(test_feature(&features, "long"), TestFeatureRetVal::TEST_FEATURE_OFF);
    assert_eq!(test_feature(&features, "b"), TestFeatureRetVal::TEST_FEATURE_NOT_RECOGNIZED);
    assert_eq!(TestFeatureRetVal::TEST_FEATURE_NOT_RECOGNIZED.code(), 2);
}

#[test]
fn formats() {
    let args = vec![FormatArg::Text("ab"), FormatArg::Int(-7), FormatArg::Count(12)];
    assert_eq!(sprintf("%s=%d (%d)", &args), "ab=-7 (12)");
    assert_eq!(sprintf("%ls", &args), "ab");
    assert_eq!(sprintf("100%% %-4ls|%4d|", &args), "100% ab  |  -7|");
    assert_eq!(sprintf("%-1s|", &args), "ab|");
    assert_eq!(sprintf("50% off", &args), "50% off");
    assert_eq!(sprintf("", &args), "");
    assert_eq!(sprintf("%", &args), "%");
    let star = vec![FormatArg::Count(4), FormatArg::Text("ab")];
    assert_eq!(sprintf("%*s|%-*s|", &star), "  ab||");
    assert_eq!(sprintf("%-*s|", &star), "ab  |");
    let left = vec![FormatArg::Int(-4), FormatArg::Text("ab")];
    assert_eq!(sprintf("%*s|", &left), "ab  |");
}
