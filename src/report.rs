//! Diagnostics produced while crawling, and what is printed of them.
use vstd::prelude::*;
use vstd::string::*;
use crate::access::PathAccessData;
use crate::argument::{shell_escaped, AppArgument};
use crate::text::{join_spec, join_with};
use crate::user_config::copy_strings;
use crate::argument::{dict_set, dict_without, seq_without};
use crate::text::{decimal, decimal_spec, signed_decimal, signed_decimal_spec, split_on, split_spec};

verus! {

/// The severity of a report.
#[derive(Clone, Copy, Debug, PartialEq, Eq, Structural)]
pub enum ReportKind {
    Error,
    Warning,
    Info,
}

impl ReportKind {
    pub open spec fn tag_spec(self) -> Seq<char> {
        match self {
            ReportKind::Error => "error"@,
            ReportKind::Warning => "warning"@,
            ReportKind::Info => "info"@,
        }
    }

    /// The tag printed before a report's summary.
    pub fn get_tag_text(&self) -> (r: &'static str)
        ensures
            r@ == self.tag_spec(),
    {
        match self {
            ReportKind::Error => "error",
            ReportKind::Warning => "warning",
            ReportKind::Info => "info",
        }
    }
}

/// A diagnostic written by a visitor: a summary, a severity, advice, captured logs, and
/// whether it points at a fault of the crawler rather than of the plugin.
#[derive(Clone, Debug)]
pub struct ReportBuilder {
    pub summary: String,
    pub kind: ReportKind,
    pub tips: Vec<String>,
    pub logs: Vec<(String, Vec<String>)>,
    pub is_internal_error: bool,
}

impl ReportBuilder {
    /// A report with this summary and severity, no tips, no logs, not internal.
    pub fn new_with_summary_and_kind(summary: String, kind: ReportKind) -> (r: Self)
        ensures
            r.summary == summary,
            r.kind == kind,
            r.tips@.len() == 0,
            r.logs@.len() == 0,
            !r.is_internal_error,
    {
        ReportBuilder { summary, kind, tips: Vec::new(), logs: Vec::new(), is_internal_error: false }
    }

    /// An error report with this summary.
    pub fn new_error(summary: String) -> (r: Self)
        ensures
            r.summary == summary,
            r.kind == ReportKind::Error,
            r.tips@.len() == 0,
            r.logs@.len() == 0,
            !r.is_internal_error,
    {
        Self::new_with_summary_and_kind(summary, ReportKind::Error)
    }

    /// A warning report with this summary.
    pub fn new_warning(summary: String) -> (r: Self)
        ensures
            r.summary == summary,
            r.kind == ReportKind::Warning,
            r.tips@.len() == 0,
            r.logs@.len() == 0,
            !r.is_internal_error,
    {
        Self::new_with_summary_and_kind(summary, ReportKind::Warning)
    }

    /// An informative report with this summary.
    pub fn new_info(summary: String) -> (r: Self)
        ensures
            r.summary == summary,
            r.kind == ReportKind::Info,
            r.tips@.len() == 0,
            r.logs@.len() == 0,
            !r.is_internal_error,
    {
        Self::new_with_summary_and_kind(summary, ReportKind::Info)
    }

    /// The same report, marked as internal or not.
    pub fn set_internal_error(self, is_internal_error: bool) -> (r: Self)
        ensures
            r.is_internal_error == is_internal_error,
            r.summary == self.summary,
            r.kind == self.kind,
            r.tips@ == self.tips@,
            r.logs@ == self.logs@,
    {
        let mut r = self;
        r.is_internal_error = is_internal_error;
        r
    }

    /// The same report with one more tip, last.
    pub fn add_tip(self, tip: String) -> (r: Self)
        ensures
            r.tips@ == self.tips@.push(tip),
            r.summary == self.summary,
            r.kind == self.kind,
            r.logs@ == self.logs@,
            r.is_internal_error == self.is_internal_error,
    {
        let mut r = self;
        r.tips.push(tip);
        r
    }

    /// The same report with one more named group of log lines, last.
    pub fn add_log(self, name: String, log: Vec<String>) -> (r: Self)
        ensures
            r.logs@ == self.logs@.push((name, log)),
            r.summary == self.summary,
            r.kind == self.kind,
            r.tips@ == self.tips@,
            r.is_internal_error == self.is_internal_error,
    {
        let mut r = self;
        r.logs.push((name, log));
        r
    }
}

/// How a sub-process ended.
#[derive(Clone, Copy, Debug, PartialEq, Eq, Structural)]
pub enum ExitStatus {
    Exited(u32),
    Signaled(u8),
    Other(i32),
    Undetermined,
}

impl ExitStatus {
    pub open spec fn text_spec(self) -> Seq<char> {
        match self {
            ExitStatus::Exited(c) => "Exited("@ + decimal_spec(c as nat) + ")"@,
            ExitStatus::Signaled(s) => "Signaled("@ + decimal_spec(s as nat) + ")"@,
            ExitStatus::Other(o) => "Other("@ + signed_decimal_spec(o as int) + ")"@,
            ExitStatus::Undetermined => "Undetermined"@,
        }
    }

    /// How the status reads in a message.
    pub fn text(&self) -> (r: String)
        ensures
            r@ == self.text_spec(),
    {
        let (head, num): (&str, Option<String>) = match self {
            ExitStatus::Exited(c) => ("Exited(", Some(decimal(*c as u64))),
            ExitStatus::Signaled(s) => ("Signaled(", Some(decimal(*s as u64))),
            ExitStatus::Other(o) => ("Other(", Some(signed_decimal(*o as i64))),
            ExitStatus::Undetermined => ("Undetermined", None),
        };
        let mut r = head.to_owned();
        if let Some(n) = num {
            r.append(n.as_str());
            r.append(")");
        }
        r
    }
}

/// Why the resolver could not give a result for a descriptor.
#[derive(Clone, Debug)]
pub enum KodiError {
    /// The plugin exited unsuccessfully; its merged output when it was captured.
    NonZeroResult(Option<String>, ExitStatus),
    CantCreateProcess(String),
    CantCreateTemporyDir(String),
    CantOpenResultFile(String),
    CantParseResultFile(String),
}

impl KodiError {
    pub open spec fn message_spec(&self) -> Seq<char> {
        match self {
            KodiError::NonZeroResult(_, status) => "python returned a non zero value (it probably crashed, with the exit status "@
                + status.text_spec() + ")"@,
            KodiError::CantCreateProcess(_) => "failed to invoke the child process"@,
            KodiError::CantCreateTemporyDir(_) => "internal error: can't create a tempory folder"@,
            KodiError::CantOpenResultFile(_) => "internal error: can't open the result file"@,
            KodiError::CantParseResultFile(_) => "internal error: can't parse the result file"@,
        }
    }

    /// The sentence that describes the error.
    pub fn message(&self) -> (r: String)
        ensures
            r@ == self.message_spec(),
    {
        match self {
            KodiError::NonZeroResult(_, status) => {
                let mut r = "python returned a non zero value (it probably crashed, with the exit status ".to_owned();
                let t = status.text();
                r.append(t.as_str());
                r.append(")");
                r
            },
            KodiError::CantCreateProcess(_) => "failed to invoke the child process".to_owned(),
            KodiError::CantCreateTemporyDir(_) => "internal error: can't create a tempory folder".to_owned(),
            KodiError::CantOpenResultFile(_) => "internal error: can't open the result file".to_owned(),
            KodiError::CantParseResultFile(_) => "internal error: can't parse the result file".to_owned(),
        }
    }
}

/// A diagnostic of the crawl, with the node it concerns.
#[derive(Clone, Debug)]
pub enum RecurseReport {
    /// The visitor reported on `child`, reached from `parent`.
    CalledReport(PathAccessData, Option<PathAccessData>, ReportBuilder),
    /// The worker of `child`, reached from `parent`, ended abnormally.
    ThreadPanicked(PathAccessData, Option<PathAccessData>),
    /// The resolver failed on `child`.
    KodiCallError(PathAccessData, KodiError),
}

/// Sequences of lines without the empty lines at their end.
pub open spec fn trim_trailing_empty(s: Seq<Seq<char>>) -> Seq<Seq<char>>
    decreases s.len(),
{
    if s.len() > 0 && s.last().len() == 0 {
        trim_trailing_empty(s.drop_last())
    } else {
        s
    }
}

/// The last `n` elements of `s`, or all of them when there are fewer.
pub open spec fn last_n(s: Seq<Seq<char>>, n: nat) -> Seq<Seq<char>> {
    if s.len() > n {
        s.subrange(s.len() - n, s.len() as int)
    } else {
        s
    }
}

/// The most log lines a report shows.
pub const MAX_LOG_LINES: usize = 20;

/// The lines of a captured output that a report shows: at most the last twenty, after the
/// empty lines at its end are dropped.
pub open spec fn shown_log_lines(log: Seq<char>) -> Seq<Seq<char>> {
    last_n(trim_trailing_empty(split_spec(log, '\n')), MAX_LOG_LINES as nat)
}

/// The label of the lines shown of a captured output.
pub open spec fn log_label(log: Seq<char>) -> Seq<char> {
    let all = trim_trailing_empty(split_spec(log, '\n'));
    let shown = shown_log_lines(log);
    if shown.len() == 0 {
        "the addon had no log"@
    } else if all.len() <= MAX_LOG_LINES {
        if shown.len() == 1 {
            "the onle log line"@
        } else {
            "all the "@ + decimal_spec(shown.len()) + " log lines"@
        }
    } else {
        "lasts "@ + decimal_spec(shown.len()) + " log lines"@
    }
}

/// The tip given when the plugin's output was not captured.
pub open spec fn no_log_tip() -> Seq<char> {
    "log not avalaible. To have it display in the report, run without --no-catch-output/-n (the full log should be viewable upper)."@
}

/// The tip given for internal errors.
pub open spec fn internal_tip() -> Seq<char> {
    "this is likely an issue in the kodionline program"@
}

impl RecurseReport {
    pub open spec fn kind_spec(&self) -> ReportKind {
        match self {
            RecurseReport::CalledReport(_, _, report) => report.kind,
            _ => ReportKind::Error,
        }
    }

    pub open spec fn internal_spec(&self) -> bool {
        match self {
            RecurseReport::CalledReport(_, _, report) => report.is_internal_error,
            RecurseReport::KodiCallError(_, err) => !(err is NonZeroResult),
            RecurseReport::ThreadPanicked(_, _) => true,
        }
    }

    pub open spec fn summary_spec(&self) -> Seq<char> {
        match self {
            RecurseReport::CalledReport(_, _, report) => report.summary@,
            RecurseReport::KodiCallError(_, err) => "can't get data from a plugin: "@ + err.message_spec(),
            RecurseReport::ThreadPanicked(_, _) => "a thread panicked unexpectingly"@,
        }
    }

    /// The node to rerun to reproduce the report, and its parent when it is known.
    pub open spec fn reproduce_spec(&self) -> (PathAccessData, Option<PathAccessData>) {
        match self {
            RecurseReport::CalledReport(child, parent, _) => (*child, *parent),
            RecurseReport::KodiCallError(child, _) => (*child, None),
            RecurseReport::ThreadPanicked(child, parent) => (*child, *parent),
        }
    }

    /// The report's severity: the visitor's choice, else error.
    pub fn get_report_type(&self) -> (r: ReportKind)
        ensures
            r == self.kind_spec(),
    {
        match self {
            RecurseReport::CalledReport(_, _, report) => report.kind,
            RecurseReport::ThreadPanicked(_, _) => ReportKind::Error,
            RecurseReport::KodiCallError(_, _) => ReportKind::Error,
        }
    }

    /// The one-line summary.
    pub fn get_summary_text(&self) -> (r: String)
        ensures
            r@ == self.summary_spec(),
    {
        match self {
            RecurseReport::CalledReport(_, _, report) => report.summary.clone(),
            RecurseReport::KodiCallError(_, err) => {
                let mut r = "can't get data from a plugin: ".to_owned();
                let m = err.message();
                r.append(m.as_str());
                r
            },
            RecurseReport::ThreadPanicked(_, _) => "a thread panicked unexpectingly".to_owned(),
        }
    }

    /// `tag: summary`.
    pub fn get_summary_formatted(&self) -> (r: String)
        ensures
            r@ == self.kind_spec().tag_spec() + ": "@ + self.summary_spec(),
    {
        let kind = self.get_report_type();
        let mut r = kind.get_tag_text().to_owned();
        r.append(": ");
        let s = self.get_summary_text();
        r.append(s.as_str());
        r
    }

    /// Whether the report likely points at a fault of the crawler: the visitor decides for
    /// its reports; a resolver failure is internal unless the plugin exited unsuccessfully;
    /// a worker that ended abnormally always is.
    pub fn is_internal_error(&self) -> (r: bool)
        ensures
            r == self.internal_spec(),
    {
        match self {
            RecurseReport::CalledReport(_, _, report) => report.is_internal_error,
            RecurseReport::KodiCallError(_, err) => match err {
                KodiError::NonZeroResult(_, _) => false,
                _ => true,
            },
            RecurseReport::ThreadPanicked(_, _) => true,
        }
    }

    /// The node to rerun, and its parent when it is known.
    pub fn get_reproduce_access(&self) -> (r: (PathAccessData, Option<PathAccessData>))
        ensures
            r.0.same_as(&self.reproduce_spec().0),
            r.1 is Some <==> self.reproduce_spec().1 is Some,
            r.1 matches Some(p) ==> p.same_as(&self.reproduce_spec().1.unwrap()),
    {
        match self {
            RecurseReport::CalledReport(child, parent, _) => (child.duplicate(), match parent {
                Some(p) => Some(p.duplicate()),
                None => None,
            }),
            RecurseReport::KodiCallError(child, _) => (child.duplicate(), None),
            RecurseReport::ThreadPanicked(child, parent) => (child.duplicate(), match parent {
                Some(p) => Some(p.duplicate()),
                None => None,
            }),
        }
    }
}


/// The shell command of a command line: its words shell-escaped and joined by spaces.
pub open spec fn command_string(a: AppArgument) -> Seq<char> {
    join_spec(a.command_tokens().map_values(|w: Seq<char>| shell_escaped(w)), ' ')
}

/// Whether `r` is the command line that [`AppArgument::reproducer`] derives from `a`.
pub open spec fn is_reproducer_of(r: AppArgument, a: AppArgument, child_path: Seq<char>, parent_path: Option<Seq<char>>) -> bool {
    &&& r.command_name@ == a.command_name@
    &&& r.args_order.deep_view() == a.args_order.deep_view()
    &&& r.short_version.deep_view() == a.short_version.deep_view()
    &&& r.bool_set.deep_view() == seq_without(
        seq_without(a.bool_set.deep_view(), "keep-going"@),
        "no-catch-output"@,
    ).push("no-catch-output"@)
    &&& r.args.deep_view() == match parent_path {
        Some(p) => dict_set(
            dict_set(dict_set(a.args.deep_view(), "jobs"@, "1"@), "path"@, child_path),
            "parent-path"@,
            p,
        ),
        None => dict_without(
            dict_set(dict_set(a.args.deep_view(), "jobs"@, "1"@), "path"@, child_path),
            "parent-path"@,
        ),
    }
    &&& match (a.sub_command, r.sub_command) {
        (Some(x), Some(y)) => x.same_as(&*y),
        (None, None) => true,
        _ => false,
    }
}

/// The tip that gives the reproducer command.
pub open spec fn reproduce_tip(command: Seq<char>) -> Seq<char> {
    "to reproduce this error, run : "@ + command
}

/// The lines of text of a report: its summary, each log group framed by dashes, then each tip.
pub open spec fn report_lines(summary: Seq<char>, logs: Seq<(Seq<char>, Seq<Seq<char>>)>, tips: Seq<Seq<char>>) -> Seq<Seq<char>> {
    seq![summary] + log_lines(logs) + tips.map_values(|t: Seq<char>| "  tip: "@ + t)
}

pub open spec fn log_lines(logs: Seq<(Seq<char>, Seq<Seq<char>>)>) -> Seq<Seq<char>>
    decreases logs.len(),
{
    if logs.len() == 0 {
        Seq::<Seq<char>>::empty()
    } else {
        log_lines(logs.drop_last()) + seq![logs.last().0 + ": -------"@] + logs.last().1 + seq![
            "------------"@,
        ]
    }
}

impl RecurseReport {
    /// The groups of log lines that the report shows.
    pub open spec fn logs_spec(&self) -> Seq<(Seq<char>, Seq<Seq<char>>)> {
        match self {
            RecurseReport::KodiCallError(_, KodiError::NonZeroResult(Some(log), _)) => seq![
                (log_label(log@), shown_log_lines(log@)),
            ],
            RecurseReport::CalledReport(_, _, report) => report.logs.deep_view(),
            _ => Seq::<(Seq<char>, Seq<Seq<char>>)>::empty(),
        }
    }

    /// The tips that do not depend on the command line: the visitor's own, the advice to
    /// capture output when it was not, and the warning on internal errors.
    pub open spec fn fixed_tips_spec(&self) -> Seq<Seq<char>> {
        (match self {
            RecurseReport::CalledReport(_, _, report) => report.tips.deep_view(),
            _ => Seq::<Seq<char>>::empty(),
        }) + (if self matches RecurseReport::KodiCallError(_, KodiError::NonZeroResult(None, _)) {
            seq![no_log_tip()]
        } else {
            Seq::<Seq<char>>::empty()
        }) + (if self.internal_spec() {
            seq![internal_tip()]
        } else {
            Seq::<Seq<char>>::empty()
        })
    }

    /// The captured output of a failed plugin, at most its last twenty non-trailing-empty
    /// lines under a label, followed by the visitor's log groups.
    pub fn get_logs(&self) -> (r: Vec<(String, Vec<String>)>)
        ensures
            r.deep_view() == self.logs_spec(),
    {
        match self {
            RecurseReport::KodiCallError(_, KodiError::NonZeroResult(Some(log), _)) => {
                let (label, lines) = shown_log(log);
                let mut r: Vec<(String, Vec<String>)> = Vec::new();
                r.push((label, lines));
                assert(r.deep_view() =~= self.logs_spec());
                r
            },
            RecurseReport::CalledReport(_, _, report) => copy_logs(&report.logs),
            _ => {
                let r: Vec<(String, Vec<String>)> = Vec::new();
                assert(r.deep_view() =~= self.logs_spec());
                r
            },
        }
    }

    /// The advice of the report; the last tip is the command that reruns its node alone.
    pub fn get_tip(&self, app_argument: &AppArgument) -> (r: Vec<String>)
        ensures
            r.deep_view().drop_last() == self.fixed_tips_spec(),
            r.deep_view().len() == self.fixed_tips_spec().len() + 1,
            exists|rep: AppArgument|
                is_reproducer_of(
                    rep,
                    *app_argument,
                    self.reproduce_spec().0.path@,
                    match self.reproduce_spec().1 {
                        Some(p) => Some(p.path@),
                        None => None,
                    },
                ) && r.deep_view().last() == reproduce_tip(#[trigger] command_string(rep)),
    {
        let mut tips: Vec<String> = match self {
            RecurseReport::CalledReport(_, _, report) => copy_strings(&report.tips),
            _ => Vec::new(),
        };
        let ghost own = tips.deep_view();
        if let RecurseReport::KodiCallError(_, KodiError::NonZeroResult(None, _)) = self {
            tips.push("log not avalaible. To have it display in the report, run without --no-catch-output/-n (the full log should be viewable upper).".to_owned());
        }
        let ghost with_log = tips.deep_view();
        if self.is_internal_error() {
            tips.push("this is likely an issue in the kodionline program".to_owned());
        }
        assert(tips.deep_view() =~= self.fixed_tips_spec());
        let (child, parent) = self.get_reproduce_access();
        let rep = match &parent {
            Some(p) => app_argument.reproducer(child.path.as_str(), Some(p.path.as_str())),
            None => app_argument.reproducer(child.path.as_str(), None),
        };
        let command = rep.get_command_safe();
        let mut tip = "to reproduce this error, run : ".to_owned();
        tip.append(command.as_str());
        let ghost fixed = tips.deep_view();
        tips.push(tip);
        assert(tips.deep_view() =~= fixed.push(tip@));
        assert(tips.deep_view().drop_last() =~= fixed);
        assert(tips.deep_view().last() == reproduce_tip(command_string(rep)));
        assert(is_reproducer_of(
            rep,
            *app_argument,
            self.reproduce_spec().0.path@,
            match self.reproduce_spec().1 {
                Some(p) => Some(p.path@),
                None => None,
            },
        ));
        tips
    }

    /// The text printed for this report, given its tips.
    pub fn text_to_print_with(&self, tips: &Vec<String>) -> (r: String)
        ensures
            r@ == join_spec(
                report_lines(
                    self.kind_spec().tag_spec() + ": "@ + self.summary_spec(),
                    self.logs_spec(),
                    tips.deep_view(),
                ),
                '\n',
            ),
    {
        let mut lines: Vec<String> = Vec::new();
        lines.push(self.get_summary_formatted());
        let logs = self.get_logs();
        let mut i: usize = 0;
        assert(lines.deep_view() =~= seq![self.kind_spec().tag_spec() + ": "@ + self.summary_spec()] + log_lines(
            logs.deep_view().take(0),
        ));
        while i < logs.len()
            invariant
                i <= logs.len(),
                logs.deep_view() == self.logs_spec(),
                lines.deep_view() == seq![self.kind_spec().tag_spec() + ": "@ + self.summary_spec()]
                    + log_lines(logs.deep_view().take(i as int)),
            decreases logs.len() - i,
        {
            let ghost p = logs.deep_view().take(i as int + 1);
            assert(p.drop_last() =~= logs.deep_view().take(i as int));
            assert(p.last() == logs.deep_view()[i as int]);
            let ghost before = lines.deep_view();
            let mut head = logs[i].0.clone();
            head.append(": -------");
            lines.push(head);
            let mut j: usize = 0;
            while j < logs[i].1.len()
                invariant
                    i < logs.len(),
                    j <= logs[i as int].1.len(),
                    lines.deep_view() == before + seq![logs[i as int].0@ + ": -------"@]
                        + logs[i as int].1.deep_view().take(j as int),
                decreases logs[i as int].1.len() - j,
            {
                let ghost b2 = lines.deep_view();
                lines.push(logs[i].1[j].clone());
                assert(lines.deep_view() =~= b2.push(logs[i as int].1[j as int]@));
                assert(logs[i as int].1.deep_view().take(j as int + 1) =~= logs[i as int].1.deep_view().take(
                    j as int,
                ).push(logs[i as int].1[j as int]@));
                assert(lines.deep_view() =~= before + seq![logs[i as int].0@ + ": -------"@]
                    + logs[i as int].1.deep_view().take(j as int + 1));
                j = j + 1;
            }
            assert(logs[i as int].1.deep_view().take(j as int) =~= logs[i as int].1.deep_view());
            let ghost b3 = lines.deep_view();
            lines.push("------------".to_owned());
            assert(lines.deep_view() =~= b3.push("------------"@));
            assert(logs.deep_view()[i as int] == (logs[i as int].0@, logs[i as int].1.deep_view()));
            assert(lines.deep_view() =~= seq![self.kind_spec().tag_spec() + ": "@ + self.summary_spec()]
                + log_lines(p));
            i = i + 1;
        }
        assert(logs.deep_view().take(i as int) =~= logs.deep_view());
        let ghost head_lines = lines.deep_view();
        let ghost tip_lines = tips.deep_view().map_values(|t: Seq<char>| "  tip: "@ + t);
        let mut k: usize = 0;
        while k < tips.len()
            invariant
                k <= tips.len(),
                tip_lines == tips.deep_view().map_values(|t: Seq<char>| "  tip: "@ + t),
                lines.deep_view() == head_lines + tip_lines.take(k as int),
            decreases tips.len() - k,
        {
            let mut line = "  tip: ".to_owned();
            line.append(tips[k].as_str());
            let ghost b4 = lines.deep_view();
            assert(tips.deep_view()[k as int] == tips[k as int]@);
            assert(tip_lines[k as int] == "  tip: "@ + tips[k as int]@);
            assert(tip_lines.take(k as int + 1) =~= tip_lines.take(k as int).push(line@));
            let ghost lv = line@;
            lines.push(line);
            assert(lines.deep_view() =~= b4.push(lv));
            assert(lines.deep_view() =~= head_lines + tip_lines.take(k as int + 1));
            k = k + 1;
        }
        assert(tip_lines.take(k as int) =~= tip_lines);
        join_with(&lines, '\n')
    }

    /// The text printed for this report: summary, logs, then tips, the last of which gives
    /// the command that reruns its node alone.
    pub fn get_text_to_print(&self, app_argument: &AppArgument) -> (r: String)
        ensures
            exists|tips: Seq<Seq<char>>, rep: AppArgument|
                #![trigger report_lines(self.kind_spec().tag_spec() + ": "@ + self.summary_spec(), self.logs_spec(), tips), command_string(rep)]
                tips.drop_last() == self.fixed_tips_spec() && tips.len() == self.fixed_tips_spec().len() + 1
                    && is_reproducer_of(
                    rep,
                    *app_argument,
                    self.reproduce_spec().0.path@,
                    match self.reproduce_spec().1 {
                        Some(p) => Some(p.path@),
                        None => None,
                    },
                ) && tips.last() == reproduce_tip(command_string(rep)) && r@ == join_spec(
                    report_lines(
                        self.kind_spec().tag_spec() + ": "@ + self.summary_spec(),
                        self.logs_spec(),
                        tips,
                    ),
                    '\n',
                ),
    {
        let tips = self.get_tip(app_argument);
        let r = self.text_to_print_with(&tips);
        let ghost parent_path = match self.reproduce_spec().1 {
            Some(p) => Some(p.path@),
            None => None,
        };
        let ghost rep = choose|rep: AppArgument|
            is_reproducer_of(rep, *app_argument, self.reproduce_spec().0.path@, parent_path)
                && tips.deep_view().last() == reproduce_tip(#[trigger] command_string(rep));
        assert(tips.deep_view().drop_last() == self.fixed_tips_spec());
        r
    }
}

/// The label and lines that a report shows of a captured output.
fn shown_log(log: &String) -> (r: (String, Vec<String>))
    ensures
        r.0@ == log_label(log@),
        r.1.deep_view() == shown_log_lines(log@),
{
    let mut lines = split_on(log.as_str(), '\n');
    let ghost all = split_spec(log@, '\n');
    while lines.len() > 0 && lines[lines.len() - 1].as_str().is_empty()
        invariant
            trim_trailing_empty(lines.deep_view()) == trim_trailing_empty(all),
        decreases lines.len(),
    {
        let ghost before = lines.deep_view();
        lines.pop();
        assert(lines.deep_view() =~= before.drop_last());
    }
    let ghost trimmed = lines.deep_view();
    assert(trim_trailing_empty(trimmed) == trimmed);
    let all_included = lines.len() <= MAX_LOG_LINES;
    if lines.len() > MAX_LOG_LINES {
        let at = lines.len() - MAX_LOG_LINES;
        let tail = lines.split_off(at);
        lines = tail;
        assert(lines.deep_view() =~= trimmed.subrange(trimmed.len() - MAX_LOG_LINES as int, trimmed.len() as int));
    }
    let n = lines.len();
    let label = if n == 0 {
        "the addon had no log".to_owned()
    } else if all_included {
        if n == 1 {
            "the onle log line".to_owned()
        } else {
            let mut l = "all the ".to_owned();
            let d = decimal(n as u64);
            l.append(d.as_str());
            l.append(" log lines");
            l
        }
    } else {
        let mut l = "lasts ".to_owned();
        let d = decimal(n as u64);
        l.append(d.as_str());
        l.append(" log lines");
        l
    };
    (label, lines)
}

fn copy_logs(logs: &Vec<(String, Vec<String>)>) -> (r: Vec<(String, Vec<String>)>)
    ensures
        r.deep_view() == logs.deep_view(),
{
    let mut out: Vec<(String, Vec<String>)> = Vec::new();
    let mut i: usize = 0;
    while i < logs.len()
        invariant
            i <= logs.len(),
            out.deep_view() == logs.deep_view().take(i as int),
        decreases logs.len() - i,
    {
        let ghost before = out.deep_view();
        let lines = copy_strings(&logs[i].1);
        out.push((logs[i].0.clone(), lines));
        assert(logs.deep_view()[i as int] == (logs[i as int].0@, logs[i as int].1.deep_view()));
        assert(out.deep_view() =~= before.push(logs.deep_view()[i as int]));
        assert(out.deep_view() =~= logs.deep_view().take(i as int + 1));
        i = i + 1;
    }
    assert(logs.deep_view().take(i as int) =~= logs.deep_view());
    out
}

} // verus!
