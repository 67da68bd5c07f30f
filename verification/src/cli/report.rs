//! What the `doctor` and `session start` commands make of their inputs before any output.

use vstd::prelude::*;
use crate::digits::{decimal, push_decimal};
use crate::storage::StorageDiagnostics;
use crate::text::{chars_of, is_white_space, law_trim_strips_ends, push_str, string_from_chars, trim, trim_chars};
use crate::cli::{format_duration, format_time, spec_format_duration};
use crate::timer::{TimerState, TimerStatus, TimerView, opt_text, lemma_unix_seconds_bounds, spec_clock_text, spec_unix_seconds, unix_timestamp};

verus! {

/// The lines `doctor` prints for `d`; the status line says OK only when the migration
/// marker is set.
pub open spec fn spec_doctor_lines(d: StorageDiagnostics) -> Seq<Seq<char>> {
    seq![
        "WorkTimer Doctor"@,
        "  Database: "@ + d.database_path@,
        "  Migration marker: "@ + match d.migration_marker {
            Some(m) => m@,
            None => "<not-set>"@,
        },
        "  Days stored: "@ + decimal(d.days_count as nat),
        "  Work records: "@ + decimal(d.work_records_count as nat),
        "  Active timer: "@ + if d.active_timer_present { "present"@ } else { "none"@ },
        "  Legacy JSON backups: "@ + decimal(d.legacy_day_json_files as nat) + " day files, "@
            + decimal(d.legacy_timer_json_files as nat) + " timer files"@,
        if d.migration_marker is Some {
            "  Status: OK (SQLite migration completed)"@
        } else {
            "  Status: WARN (unexpected missing migration marker; possible failed migration or DB issue)"@
        },
    ]
}

/// The doctor report: its title, then the database path, the migration marker (or
/// `<not-set>`), the day and record counts, `present` or `none` for the active timer exactly
/// as one is stored, the legacy file counts, and an OK status exactly when the marker is set.
pub proof fn law_doctor_report_lines(d: StorageDiagnostics)
    ensures
        spec_doctor_lines(d).len() == 8,
        spec_doctor_lines(d)[0] == "WorkTimer Doctor"@,
        spec_doctor_lines(d)[1] == "  Database: "@ + d.database_path@,
        d.migration_marker matches Some(m) ==> spec_doctor_lines(d)[2] == "  Migration marker: "@ + m@,
        d.migration_marker is None ==> spec_doctor_lines(d)[2] == "  Migration marker: <not-set>"@,
        spec_doctor_lines(d)[3] == "  Days stored: "@ + decimal(d.days_count as nat),
        spec_doctor_lines(d)[4] == "  Work records: "@ + decimal(d.work_records_count as nat),
        d.active_timer_present <==> spec_doctor_lines(d)[5] == "  Active timer: present"@,
        !d.active_timer_present <==> spec_doctor_lines(d)[5] == "  Active timer: none"@,
        spec_doctor_lines(d)[6] == "  Legacy JSON backups: "@ + decimal(d.legacy_day_json_files as nat) + " day files, "@
            + decimal(d.legacy_timer_json_files as nat) + " timer files"@,
        d.migration_marker is Some <==> spec_doctor_lines(d)[7] == "  Status: OK (SQLite migration completed)"@,
        d.migration_marker is None <==> spec_doctor_lines(d)[7]
            == "  Status: WARN (unexpected missing migration marker; possible failed migration or DB issue)"@,
{
    reveal_strlit("  Migration marker: ");
    reveal_strlit("<not-set>");
    reveal_strlit("  Migration marker: <not-set>");
    reveal_strlit("  Active timer: ");
    reveal_strlit("present");
    reveal_strlit("none");
    reveal_strlit("  Active timer: present");
    reveal_strlit("  Active timer: none");
    reveal_strlit("  Status: OK (SQLite migration completed)");
    reveal_strlit("  Status: WARN (unexpected missing migration marker; possible failed migration or DB issue)");
    let l = spec_doctor_lines(d);
    if d.migration_marker is None {
        assert(l[2] =~= "  Migration marker: <not-set>"@);
        assert(l[7] != "  Status: OK (SQLite migration completed)"@) by {
            assert(l[7][10] != "  Status: OK (SQLite migration completed)"@[10]);
        }
    } else {
        assert(l[7] != "  Status: WARN (unexpected missing migration marker; possible failed migration or DB issue)"@) by {
            assert(l[7][10] != "  Status: WARN (unexpected missing migration marker; possible failed migration or DB issue)"@[10]);
        }
    }
    if d.active_timer_present {
        assert(l[5] =~= "  Active timer: present"@);
        assert(l[5].len() != "  Active timer: none"@.len());
    } else {
        assert(l[5] =~= "  Active timer: none"@);
        assert(l[5].len() != "  Active timer: present"@.len());
    }
}

fn joined(a: &str, b: &str) -> (res: String)
    ensures
        res@ == a@ + b@,
{
    let mut out: Vec<char> = Vec::new();
    push_str(&mut out, a);
    push_str(&mut out, b);
    string_from_chars(&out)
}

fn with_count(prefix: &str, n: u64) -> (res: String)
    ensures
        res@ == prefix@ + decimal(n as nat),
{
    let mut out: Vec<char> = Vec::new();
    push_str(&mut out, prefix);
    push_decimal(&mut out, n);
    string_from_chars(&out)
}

/// The lines `doctor` prints (see `spec_doctor_lines`).
pub fn doctor_lines(d: &StorageDiagnostics) -> (res: Vec<String>)
    ensures
        res@.map_values(|s: String| s@) == spec_doctor_lines(*d),
{
    let mut lines: Vec<String> = Vec::new();
    lines.push("WorkTimer Doctor".to_owned());
    lines.push(joined("  Database: ", d.database_path.as_str()));
    let marker = match &d.migration_marker {
        Some(m) => joined("  Migration marker: ", m.as_str()),
        None => joined("  Migration marker: ", "<not-set>"),
    };
    lines.push(marker);
    lines.push(with_count("  Days stored: ", d.days_count));
    lines.push(with_count("  Work records: ", d.work_records_count));
    let timer = if d.active_timer_present {
        joined("  Active timer: ", "present")
    } else {
        joined("  Active timer: ", "none")
    };
    lines.push(timer);
    let mut legacy: Vec<char> = Vec::new();
    push_str(&mut legacy, "  Legacy JSON backups: ");
    push_decimal(&mut legacy, d.legacy_day_json_files);
    push_str(&mut legacy, " day files, ");
    push_decimal(&mut legacy, d.legacy_timer_json_files);
    push_str(&mut legacy, " timer files");
    lines.push(string_from_chars(&legacy));
    let status = if d.migration_marker.is_some() {
        "  Status: OK (SQLite migration completed)".to_owned()
    } else {
        "  Status: WARN (unexpected missing migration marker; possible failed migration or DB issue)".to_owned()
    };
    lines.push(status);
    assert(lines@.map_values(|s: String| s@) =~= spec_doctor_lines(*d));
    lines
}

/// Why `session start` was refused before a timer was touched.
#[derive(Debug, PartialEq, Eq)]
pub enum SessionError {
    /// The task name is empty once trimmed.
    EmptyTaskName,
    /// Stop, pause or resume with no timer stored.
    NoSessionRunning,
}

impl SessionError {
    /// The message shown for the error.
    pub open spec fn message_text(&self) -> Seq<char> {
        match self {
            SessionError::EmptyTaskName => "Task name cannot be empty"@,
            SessionError::NoSessionRunning => "No session is running"@,
        }
    }

    /// The message shown for the error (see `message_text`).
    pub fn message(&self) -> (res: String)
        ensures
            res@ == self.message_text(),
    {
        match self {
            SessionError::EmptyTaskName => "Task name cannot be empty".to_owned(),
            SessionError::NoSessionRunning => "No session is running".to_owned(),
        }
    }
}

/// Stop, pause and resume need a stored timer: refused with `NoSessionRunning` when there is
/// none.
pub fn require_session(timer: &Option<TimerState>) -> (res: Result<(), SessionError>)
    ensures
        timer is Some <==> res is Ok,
        res is Err ==> res == Err::<(), SessionError>(SessionError::NoSessionRunning),
{
    match timer {
        Some(_) => Ok(()),
        None => Err(SessionError::NoSessionRunning),
    }
}

/// How a timer status is shown.
pub open spec fn status_name(s: TimerStatus) -> Seq<char> {
    match s {
        TimerStatus::Running => "Running"@,
        TimerStatus::Paused => "Paused"@,
        TimerStatus::Stopped => "Stopped"@,
    }
}

/// A line `prefix` + value when the value is there, no line otherwise.
pub open spec fn optional_line(prefix: Seq<char>, v: Option<Seq<char>>) -> Seq<Seq<char>> {
    match v {
        Some(x) => seq![prefix + x],
        None => Seq::<Seq<char>>::empty(),
    }
}

/// The lines `session status` prints: a notice when no timer is stored; otherwise the task,
/// its status, the elapsed time, the start time, then project, customer and description when
/// they are set.
pub open spec fn spec_status_lines(timer: Option<TimerView>, elapsed_secs: nat) -> Seq<Seq<char>> {
    match timer {
        None => seq!["No session is currently running"@],
        Some(t) => seq![
            "⏱ Session Status"@,
            "  Task: "@ + t.task_name,
            "  Status: "@ + status_name(t.status),
            "  Elapsed: "@ + spec_format_duration(elapsed_secs),
            "  Started at: "@ + spec_clock_text(t.start_time),
        ] + optional_line("  Project: "@, t.project) + optional_line("  Customer: "@, t.customer)
            + optional_line("  Description: "@, t.description),
    }
}

/// What `session status` shows: without a timer, only that no session runs; with one, the
/// title, the task, its status in words, the elapsed time, the start time, and then one line
/// for each of project, customer and description that is set, in that order: every set label
/// appears, and no line stands for a label that is not set.
pub proof fn law_status_lines_show_every_label(timer: Option<TimerView>, elapsed: nat)
    ensures
        timer is None ==> spec_status_lines(timer, elapsed) == seq!["No session is currently running"@],
        timer matches Some(t) ==> {
            let lines = spec_status_lines(timer, elapsed);
            &&& lines[0] == "⏱ Session Status"@
            &&& lines[1] == "  Task: "@ + t.task_name
            &&& (t.status == TimerStatus::Running ==> lines[2] == "  Status: Running"@)
            &&& (t.status == TimerStatus::Paused ==> lines[2] == "  Status: Paused"@)
            &&& (t.status == TimerStatus::Stopped ==> lines[2] == "  Status: Stopped"@)
            &&& lines[3] == "  Elapsed: "@ + spec_format_duration(elapsed)
            &&& lines[4] == "  Started at: "@ + spec_clock_text(t.start_time)
            &&& lines.skip(5) == (match t.project {
                Some(p) => seq!["  Project: "@ + p],
                None => Seq::<Seq<char>>::empty(),
            }) + (match t.customer {
                Some(c) => seq!["  Customer: "@ + c],
                None => Seq::<Seq<char>>::empty(),
            }) + (match t.description {
                Some(x) => seq!["  Description: "@ + x],
                None => Seq::<Seq<char>>::empty(),
            })
            &&& (t.project matches Some(p) ==> lines.contains("  Project: "@ + p))
            &&& (t.customer matches Some(c) ==> lines.contains("  Customer: "@ + c))
            &&& (t.description matches Some(x) ==> lines.contains("  Description: "@ + x))
        },
{
    reveal_strlit("  Status: ");
    reveal_strlit("Running");
    reveal_strlit("Paused");
    reveal_strlit("Stopped");
    reveal_strlit("  Status: Running");
    reveal_strlit("  Status: Paused");
    reveal_strlit("  Status: Stopped");
    if let Some(t) = timer {
        let lines = spec_status_lines(timer, elapsed);
        let head = seq![
            "⏱ Session Status"@,
            "  Task: "@ + t.task_name,
            "  Status: "@ + status_name(t.status),
            "  Elapsed: "@ + spec_format_duration(elapsed),
            "  Started at: "@ + spec_clock_text(t.start_time),
        ];
        let a = optional_line("  Project: "@, t.project);
        let b = optional_line("  Customer: "@, t.customer);
        let c = optional_line("  Description: "@, t.description);
        assert(lines == head + a + b + c);
        assert(lines.skip(5) =~= a + b + c);
        assert(lines[2] =~= "  Status: "@ + status_name(t.status));
        if let Some(p) = t.project {
            assert(lines[5] == "  Project: "@ + p);
        }
        if let Some(x) = t.customer {
            assert(lines[5 + a.len() as int] == "  Customer: "@ + x);
        }
        if let Some(x) = t.description {
            assert(lines[5 + a.len() as int + b.len() as int] == "  Description: "@ + x);
        }
    }
}

fn push_optional_line(lines: &mut Vec<String>, prefix: &'static str, v: &Option<String>)
    ensures
        final(lines)@.map_values(|s: String| s@) == old(lines)@.map_values(|s: String| s@) + optional_line(
            prefix@,
            opt_text(*v),
        ),
{
    let ghost before = lines@.map_values(|s: String| s@);
    match v {
        Some(x) => {
            lines.push(joined(prefix, x.as_str()));
            assert(lines@.map_values(|s: String| s@) =~= before + optional_line(prefix@, opt_text(*v)));
        },
        None => {
            assert(lines@.map_values(|s: String| s@) =~= before + optional_line(prefix@, opt_text(*v)));
        },
    }
}

/// The lines `session status` prints for the stored timer, if any, and its elapsed seconds
/// (see `spec_status_lines`).
pub fn status_lines(timer: &Option<TimerState>, elapsed_secs: u64) -> (res: Vec<String>)
    ensures
        res@.map_values(|s: String| s@) == spec_status_lines(
            match timer {
                Some(t) => Some(t@),
                None => None,
            },
            elapsed_secs as nat,
        ),
{
    let mut lines: Vec<String> = Vec::new();
    match timer {
        None => {
            lines.push("No session is currently running".to_owned());
            assert(lines@.map_values(|s: String| s@) =~= seq!["No session is currently running"@]);
        },
        Some(t) => {
            lines.push("⏱ Session Status".to_owned());
            lines.push(joined("  Task: ", t.task_name.as_str()));
            let status = match t.status {
                TimerStatus::Running => joined("  Status: ", "Running"),
                TimerStatus::Paused => joined("  Status: ", "Paused"),
                TimerStatus::Stopped => joined("  Status: ", "Stopped"),
            };
            lines.push(status);
            lines.push(joined("  Elapsed: ", format_duration(elapsed_secs).as_str()));
            lines.push(joined("  Started at: ", format_time(&t.start_time).as_str()));
            let ghost head = lines@.map_values(|s: String| s@);
            assert(head =~= seq![
                "⏱ Session Status"@,
                "  Task: "@ + t.task_name@,
                "  Status: "@ + status_name(t.status),
                "  Elapsed: "@ + spec_format_duration(elapsed_secs as nat),
                "  Started at: "@ + spec_clock_text(t.start_time),
            ]);
            push_optional_line(&mut lines, "  Project: ", &t.project);
            push_optional_line(&mut lines, "  Customer: ", &t.customer);
            push_optional_line(&mut lines, "  Description: ", &t.description);
        },
    }
    lines
}

/// The seconds a session has run: from its start to now (to the pause for a paused timer, to
/// its end for a stopped one), less the time spent paused, never below zero (nor above the
/// largest `u64`). Instants are
/// given as seconds since the Unix epoch.
pub open spec fn spec_session_elapsed(
    status: TimerStatus,
    start: int,
    paused_at: Option<int>,
    end: Option<int>,
    now: int,
    paused_secs: int,
) -> nat {
    let until = match status {
        TimerStatus::Running => now,
        TimerStatus::Paused => match paused_at { Some(p) => p, None => now },
        TimerStatus::Stopped => match end { Some(e) => e, None => now },
    };
    let d = until - start - paused_secs;
    if d < 0 { 0 } else if d > u64::MAX { u64::MAX as nat } else { d as nat }
}

/// The elapsed seconds of the stored timer at `now` (seconds since the Unix epoch): its
/// instants are counted in seconds since the epoch (see `spec_session_elapsed`).
pub fn timer_elapsed_secs(timer: &TimerState, now: i64) -> (res: u64)
    requires
        timer@.wf(),
    ensures
        res == spec_session_elapsed(
            timer.status,
            spec_unix_seconds(timer.start_time),
            match timer.paused_at { Some(p) => Some(spec_unix_seconds(p)), None => None },
            match timer.end_time { Some(e) => Some(spec_unix_seconds(e)), None => None },
            now as int,
            timer.paused_duration_secs as int,
        ),
{
    proof {
        lemma_unix_seconds_bounds(timer.start_time);
        if let Some(p) = timer.paused_at {
            lemma_unix_seconds_bounds(p);
        }
        if let Some(e) = timer.end_time {
            lemma_unix_seconds_bounds(e);
        }
    }
    let start = unix_timestamp(&timer.start_time).unwrap();
    let paused_at = match &timer.paused_at {
        Some(p) => Some(unix_timestamp(p).unwrap()),
        None => None,
    };
    let end = match &timer.end_time {
        Some(e) => Some(unix_timestamp(e).unwrap()),
        None => None,
    };
    session_elapsed_secs(timer.status, start, paused_at, end, now, timer.paused_duration_secs)
}

/// The elapsed seconds of a session (see `spec_session_elapsed`).
pub fn session_elapsed_secs(
    status: TimerStatus,
    start: i64,
    paused_at: Option<i64>,
    end: Option<i64>,
    now: i64,
    paused_secs: i64,
) -> (res: u64)
    ensures
        res == spec_session_elapsed(
            status,
            start as int,
            match paused_at { Some(p) => Some(p as int), None => None },
            match end { Some(e) => Some(e as int), None => None },
            now as int,
            paused_secs as int,
        ),
{
    let until: i64 = match status {
        TimerStatus::Running => now,
        TimerStatus::Paused => match paused_at { Some(p) => p, None => now },
        TimerStatus::Stopped => match end { Some(e) => e, None => now },
    };
    let d: i128 = until as i128 - start as i128 - paused_secs as i128;
    if d < 0 {
        0
    } else if d > u64::MAX as i128 {
        u64::MAX
    } else {
        d as u64
    }
}

/// A running session has run, at `now`, the time since its start less the time spent
/// paused (never less than nothing), and the clock moving on by `k` seconds adds `k`; a paused
/// session stays at what it had run when it was paused, and a stopped one at what it had run
/// when it stopped, however late the clock reads.
pub proof fn law_session_elapsed_follows_clock(
    start: int,
    paused_at: Option<int>,
    end: Option<int>,
    now: int,
    k: nat,
    paused_secs: int,
    p: int,
    e: int,
)
    ensures
        0 <= now - start - paused_secs <= u64::MAX ==> spec_session_elapsed(
            TimerStatus::Running, start, paused_at, end, now, paused_secs) == now - start - paused_secs,
        now - start - paused_secs < 0 ==> spec_session_elapsed(
            TimerStatus::Running, start, paused_at, end, now, paused_secs) == 0,
        0 <= now - start - paused_secs && now + k - start - paused_secs <= u64::MAX ==> spec_session_elapsed(
            TimerStatus::Running, start, paused_at, end, now + k, paused_secs) == spec_session_elapsed(
            TimerStatus::Running, start, paused_at, end, now, paused_secs) + k,
        spec_session_elapsed(TimerStatus::Paused, start, Some(p), end, now + k, paused_secs)
            == spec_session_elapsed(TimerStatus::Paused, start, Some(p), end, now, paused_secs),
        spec_session_elapsed(TimerStatus::Paused, start, Some(p), end, now, paused_secs)
            == spec_session_elapsed(TimerStatus::Running, start, paused_at, end, p, paused_secs),
        spec_session_elapsed(TimerStatus::Stopped, start, paused_at, Some(e), now + k, paused_secs)
            == spec_session_elapsed(TimerStatus::Stopped, start, paused_at, Some(e), now, paused_secs),
        spec_session_elapsed(TimerStatus::Stopped, start, paused_at, Some(e), now, paused_secs)
            == spec_session_elapsed(TimerStatus::Running, start, paused_at, end, e, paused_secs),
{
}

/// The arguments a timer session is started with.
#[derive(Debug)]
pub struct StartArgs {
    pub task: String,
    pub description: Option<String>,
    pub project: Option<String>,
    pub customer: Option<String>,
}

/// An optional label trimmed, and dropped when nothing is left of it.
pub open spec fn spec_label(v: Option<Seq<char>>) -> Option<Seq<char>> {
    match v {
        Some(t) => if trim(t).len() == 0 { None } else { Some(trim(t)) },
        None => None,
    }
}

/// A project or customer label given to `session start` loses the white space at both of its
/// ends, and one that is all white space (or empty) is dropped.
pub proof fn law_start_labels_trimmed(s: Seq<char>)
    ensures
        spec_label(None) is None,
        spec_label(Some(s)) is None <==> forall|k: int| 0 <= k < s.len() ==> is_white_space(#[trigger] s[k]),
        spec_label(Some(s)) matches Some(x) ==> {
            &&& x.len() > 0
            &&& !is_white_space(x[0])
            &&& !is_white_space(x.last())
            &&& exists|i: int, j: int| {
                &&& 0 <= i <= j <= s.len()
                &&& x == s.subrange(i, j)
                &&& forall|k: int| 0 <= k < i ==> is_white_space(#[trigger] s[k])
                &&& forall|k: int| j <= k < s.len() ==> is_white_space(#[trigger] s[k])
            }
        },
{
    law_trim_strips_ends(s);
    let (i, j) = choose|i: int, j: int| {
        &&& 0 <= i <= j <= s.len()
        &&& trim(s) == s.subrange(i, j)
        &&& forall|k: int| 0 <= k < i ==> is_white_space(#[trigger] s[k])
        &&& forall|k: int| j <= k < s.len() ==> is_white_space(#[trigger] s[k])
    };
    if trim(s).len() == 0 {
        assert(i == j);
        assert forall|k: int| 0 <= k < s.len() implies is_white_space(#[trigger] s[k]) by {
            if k < i {
            } else {
                assert(j <= k);
            }
        }
    } else {
        assert(trim(s)[0] == s[i]);
        assert(!(forall|k: int| 0 <= k < s.len() ==> is_white_space(#[trigger] s[k])));
    }
}

fn label(v: Option<String>) -> (res: Option<String>)
    ensures
        opt_text(res) == spec_label(opt_text(v)),
{
    match v {
        Some(t) => {
            let cs = trim_chars(&chars_of(t.as_str()));
            if cs.len() == 0 {
                None
            } else {
                Some(string_from_chars(&cs))
            }
        },
        None => None,
    }
}

/// The arguments of `session start` as the timer gets them: the task name trimmed (refused
/// when empty), project and customer trimmed and dropped when empty, the description as given.
pub fn prepare_start(
    task: &str,
    description: Option<String>,
    project: Option<String>,
    customer: Option<String>,
) -> (res: Result<StartArgs, SessionError>)
    ensures
        trim(task@).len() == 0 <==> res is Err,
        res is Err ==> res == Err::<StartArgs, SessionError>(SessionError::EmptyTaskName),
        res matches Ok(a) ==> a.task@ == trim(task@) && opt_text(a.description) == opt_text(description)
            && opt_text(a.project) == spec_label(opt_text(project)) && opt_text(a.customer) == spec_label(
            opt_text(customer),
        ),
{
    let name = trim_chars(&chars_of(task));
    if name.len() == 0 {
        return Err(SessionError::EmptyTaskName);
    }
    Ok(StartArgs {
        task: string_from_chars(&name),
        description,
        project: label(project),
        customer: label(customer),
    })
}

} // verus!
