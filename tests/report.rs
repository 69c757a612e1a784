use kodi_recurse::access::PathAccessData;
use kodi_recurse::argument::AppArgument;
use kodi_recurse::report::{ExitStatus, KodiError, RecurseReport, ReportBuilder, ReportKind};
use kodi_recurse::user_config::UserConfig;

fn s(x: &str) -> String {
    x.to_string()
}

fn access(path: &str) -> PathAccessData {
    PathAccessData::new(s(path), None, UserConfig::new_empty())
}

fn invocation() -> AppArgument {
    AppArgument {
        command_name: s("crawler"),
        args_order: vec![s("path"), s("parent-path"), s("jobs"), s("keep-going"), s("no-catch-output")],
        short_version: Vec::new(),
        args: vec![(s("path"), s("P")), (s("parent-path"), s("Q")), (s("jobs"), s("8"))],
        bool_set: vec![s("keep-going")],
        sub_command: Some(Box::new(AppArgument {
            command_name: s("check"),
            args_order: vec![s("check-media")],
            short_version: Vec::new(),
            args: Vec::new(),
            bool_set: vec![s("check-media")],
            sub_command: None,
        })),
    }
}

#[test]
fn reproducer_command_for_a_root_failure() {
    let report = RecurseReport::KodiCallError(access("R"), KodiError::CantCreateProcess(s("no python")));
    let tips = report.get_tip(&invocation());
    let last = tips.last().unwrap();
    let command = last.strip_prefix("to reproduce this error, run : ").unwrap();
    assert!(command.starts_with("crawler "));
    assert!(command.contains("--path R"));
    assert!(!command.contains("--parent-path"));
    assert!(command.contains("--jobs 1"));
    assert!(!command.contains("--keep-going"));
    assert!(command.contains("--no-catch-output"));
    assert!(command.ends_with("check --check-media"));
    assert_eq!(command, "crawler --path R --jobs 1 --no-catch-output check --check-media");
}

#[test]
fn reproducer_keeps_parent_of_visitor_report() {
    let report = RecurseReport::CalledReport(access("R"), Some(access("S")), ReportBuilder::new_warning(s("odd")));
    let tips = report.get_tip(&invocation());
    assert_eq!(tips.len(), 1);
    assert_eq!(
        tips[0],
        "to reproduce this error, run : crawler --path R --parent-path S --jobs 1 --no-catch-output check --check-media"
    );
}

#[test]
fn reproducer_reads_back() {
    let r = invocation().reproducer("child/x", None);
    assert_eq!(r.value_of("jobs"), Some("1"));
    assert_eq!(r.value_of("path"), Some("child/x"));
    assert_eq!(r.value_of("parent-path"), None);
    assert!(!r.is_present("keep-going"));
    assert!(r.is_present("no-catch-output"));
    let p = invocation().reproducer("c", Some("p"));
    assert_eq!(p.value_of("parent-path"), Some("p"));
}

#[test]
fn shell_escape_quotes_unsafe_words() {
    let a = AppArgument {
        command_name: s("run"),
        args_order: Vec::new(),
        short_version: vec![(s("path"), s("p"))],
        args: vec![(s("path"), s("it's!")), (s("empty"), s(""))],
        bool_set: Vec::new(),
        sub_command: None,
    };
    assert_eq!(a.get_command_safe(), "run -p 'it'\\''s'\\!'' --empty ''");
}

#[test]
fn report_kinds_and_summaries() {
    let visitor = RecurseReport::CalledReport(access("a"), None, ReportBuilder::new_info(s("hello")));
    assert_eq!(visitor.get_report_type(), ReportKind::Info);
    assert_eq!(visitor.get_summary_text(), "hello");
    assert_eq!(visitor.get_summary_formatted(), "info: hello");
    assert!(!visitor.is_internal_error());

    let failed = RecurseReport::KodiCallError(access("c2"), KodiError::NonZeroResult(Some(s("boom\n")), ExitStatus::Exited(2)));
    assert_eq!(failed.get_report_type(), ReportKind::Error);
    assert_eq!(
        failed.get_summary_text(),
        "can't get data from a plugin: python returned a non zero value (it probably crashed, with the exit status Exited(2))"
    );
    assert!(!failed.is_internal_error());
    let logs = failed.get_logs();
    assert_eq!(logs, vec![(s("the onle log line"), vec![s("boom")])]);

    let panicked = RecurseReport::ThreadPanicked(access("c1"), Some(access("root")));
    assert_eq!(panicked.get_summary_text(), "a thread panicked unexpectingly");
    assert!(panicked.is_internal_error());
    let (child, parent) = panicked.get_reproduce_access();
    assert_eq!(child.path, "c1");
    assert_eq!(parent.unwrap().path, "root");

    let spawn = RecurseReport::KodiCallError(access("x"), KodiError::CantCreateProcess(s("e")));
    assert!(spawn.is_internal_error());
    assert_eq!(spawn.get_summary_text(), "can't get data from a plugin: failed to invoke the child process");
}

#[test]
fn exit_status_texts() {
    assert_eq!(ExitStatus::Signaled(9).text(), "Signaled(9)");
    assert_eq!(ExitStatus::Other(-12).text(), "Other(-12)");
    assert_eq!(ExitStatus::Undetermined.text(), "Undetermined");
    assert_eq!(KodiError::CantParseResultFile(s("x")).message(), "internal error: can't parse the result file");
    assert_eq!(KodiError::CantOpenResultFile(s("x")).message(), "internal error: can't open the result file");
    assert_eq!(KodiError::CantCreateTemporyDir(s("x")).message(), "internal error: can't create a tempory folder");
}

#[test]
fn logs_keep_last_twenty_lines() {
    let mut log = String::new();
    for i in 1..=25 {
        log.push_str(&format!("line {}\n", i));
    }
    log.push_str("\n\n");
    let report = RecurseReport::KodiCallError(access("x"), KodiError::NonZeroResult(Some(log), ExitStatus::Exited(1)));
    let logs = report.get_logs();
    assert_eq!(logs.len(), 1);
    assert_eq!(logs[0].0, "lasts 20 log lines");
    assert_eq!(logs[0].1.len(), 20);
    assert_eq!(logs[0].1[0], "line 6");
    assert_eq!(logs[0].1[19], "line 25");
}

#[test]
fn logs_labels_for_short_outputs() {
    let three = RecurseReport::KodiCallError(access("x"), KodiError::NonZeroResult(Some(s("a\nb\nc")), ExitStatus::Exited(1)));
    assert_eq!(three.get_logs()[0].0, "all the 3 log lines");
    let none = RecurseReport::KodiCallError(access("x"), KodiError::NonZeroResult(Some(s("\n\n")), ExitStatus::Exited(1)));
    assert_eq!(none.get_logs(), vec![(s("the addon had no log"), Vec::new())]);
    let uncaptured = RecurseReport::KodiCallError(access("x"), KodiError::NonZeroResult(None, ExitStatus::Exited(1)));
    assert!(uncaptured.get_logs().is_empty());
    let tips = uncaptured.get_tip(&invocation());
    assert_eq!(tips.len(), 2);
    assert!(tips[0].starts_with("log not avalaible."));
}

#[test]
fn builder_collects_tips_and_logs() {
    let b = ReportBuilder::new_error(s("bad"))
        .add_tip(s("tip one"))
        .add_log(s("output"), vec![s("l1")])
        .set_internal_error(true);
    assert_eq!(b.kind, ReportKind::Error);
    assert_eq!(b.tips, vec![s("tip one")]);
    assert!(b.is_internal_error);
    let w = ReportBuilder::new_with_summary_and_kind(s("w"), ReportKind::Warning);
    assert_eq!(w.kind, ReportKind::Warning);
    assert_eq!(ReportKind::Warning.get_tag_text(), "warning");
    assert_eq!(ReportKind::Error.get_tag_text(), "error");
    let report = RecurseReport::CalledReport(access("R"), None, b);
    let tips = report.get_tip(&invocation());
    assert_eq!(tips[0], "tip one");
    assert_eq!(tips[1], "this is likely an issue in the kodionline program");
    let text = report.get_text_to_print(&invocation());
    let lines: Vec<&str> = text.split('\n').collect();
    assert_eq!(lines[0], "error: bad");
    assert_eq!(lines[1], "output: -------");
    assert_eq!(lines[2], "l1");
    assert_eq!(lines[3], "------------");
    assert_eq!(lines[4], "  tip: tip one");
    assert_eq!(lines.len(), 7);
}

#[test]
fn each_option_written_once() {
    let a = AppArgument {
        command_name: s("run"),
        args_order: vec![s("jobs")],
        short_version: Vec::new(),
        args: vec![(s("x"), s("1")), (s("jobs"), s("2")), (s("x"), s("3")), (s("both"), s("v"))],
        bool_set: vec![s("flag"), s("both"), s("flag"), s("jobs")],
        sub_command: None,
    };
    assert_eq!(a.get_command_safe(), "run --jobs 2 --x 3 --both v --flag");
}
