//! The command-line interface: its grammar and what its commands compute.

pub mod args;
pub mod export;
pub mod report;

use vstd::prelude::*;
use crate::digits::{decimal, digit_char, padded_decimal, push_decimal, push_padded};
use crate::date::lemma_pad2;
use crate::text::{str_eq, string_from_chars};
use crate::timer::{DateTime, spec_clock_text};
use self::args::{
    ArgError, ArgErrorView, OptDef, OptSpec, ScanView, Scanned, defs_view, empty_scan, is_help_token,
    find_short, first_eq_sign, find_long, is_option_like, long_parts, opt_view, scan, scan_args, scan_next_value, set_value, views_of,
};
use self::export::{ExportCommands, ExportDateArgs, ExportOutputArgs, ExportRangeArgs};

verus! {

/// Session management commands.
#[derive(Debug)]
pub enum SessionCommands {
    /// Start a new timer session.
    Start {
        task: String,
        description: Option<String>,
        project: Option<String>,
        customer: Option<String>,
    },
    /// Stop the running timer session.
    Stop,
    /// Pause the running timer session.
    Pause,
    /// Resume the paused timer session.
    Resume,
    /// Show the status of the running timer session.
    Status,
}

/// Available commands.
#[derive(Debug)]
pub enum Commands {
    /// Manage timer sessions (start/stop/pause/resume/status).
    Session { command: SessionCommands },
    /// Show storage and migration diagnostics.
    Doctor,
    /// Export work records to CSV.
    Export { command: ExportCommands },
}

/// A parsed command line.
#[derive(Debug)]
pub struct Cli {
    pub command: Commands,
}

/// A command line's meaning, with its texts as character sequences.
pub enum CommandView {
    Start {
        task: Seq<char>,
        description: Option<Seq<char>>,
        project: Option<Seq<char>>,
        customer: Option<Seq<char>>,
    },
    Stop,
    Pause,
    Resume,
    Status,
    Doctor,
    ExportDate { date: Seq<char>, stdout: bool, out_dir: Option<Seq<char>> },
    ExportRange { range: Seq<Seq<char>>, individual: bool, stdout: bool, out_dir: Option<Seq<char>> },
    ExportListDates,
}

impl View for Cli {
    type V = CommandView;

    open spec fn view(&self) -> CommandView {
        match &self.command {
            Commands::Session { command } => match command {
                SessionCommands::Start { task, description, project, customer } => CommandView::Start {
                    task: task@,
                    description: opt_view(*description),
                    project: opt_view(*project),
                    customer: opt_view(*customer),
                },
                SessionCommands::Stop => CommandView::Stop,
                SessionCommands::Pause => CommandView::Pause,
                SessionCommands::Resume => CommandView::Resume,
                SessionCommands::Status => CommandView::Status,
            },
            Commands::Doctor => CommandView::Doctor,
            Commands::Export { command } => match command {
                ExportCommands::Date(a) => CommandView::ExportDate {
                    date: a.date@,
                    stdout: a.output.stdout,
                    out_dir: opt_view(a.output.out_dir),
                },
                ExportCommands::Range(a) => CommandView::ExportRange {
                    range: views_of(a.range@),
                    individual: a.individual,
                    stdout: a.output.stdout,
                    out_dir: opt_view(a.output.out_dir),
                },
                ExportCommands::ListDates => CommandView::ExportListDates,
            },
        }
    }
}

/// Options of `session start`: `-d/--description`, `--project`, `--customer`.
pub open spec fn start_defs() -> Seq<OptSpec> {
    seq![
        OptSpec { long: "description"@, short: Some('d'), takes_value: true },
        OptSpec { long: "project"@, short: None, takes_value: true },
        OptSpec { long: "customer"@, short: None, takes_value: true },
    ]
}

/// Options of `export date`: `--stdout`, `--out-dir`.
pub open spec fn date_defs() -> Seq<OptSpec> {
    seq![
        OptSpec { long: "stdout"@, short: None, takes_value: false },
        OptSpec { long: "out-dir"@, short: None, takes_value: true },
    ]
}

/// Options of `export range`: `--individual`, `--stdout`, `--out-dir`.
pub open spec fn range_defs() -> Seq<OptSpec> {
    seq![
        OptSpec { long: "individual"@, short: None, takes_value: false },
        OptSpec { long: "stdout"@, short: None, takes_value: false },
        OptSpec { long: "out-dir"@, short: None, takes_value: true },
    ]
}

/// A leaf command that takes no arguments.
pub open spec fn no_args(rest: Seq<Seq<char>>, v: CommandView) -> Result<CommandView, ArgErrorView> {
    match scan(rest, seq![], empty_scan(0)) {
        Err(e) => Err(e),
        Ok(st) => if st.positionals.len() == 0 {
            Ok(v)
        } else {
            Err(ArgErrorView::UnexpectedArgument(st.positionals[0]))
        },
    }
}

/// `session start`: one task name and the start options.
pub open spec fn spec_start(rest: Seq<Seq<char>>) -> Result<CommandView, ArgErrorView> {
    match scan(rest, start_defs(), empty_scan(3)) {
        Err(e) => Err(e),
        Ok(st) => if st.positionals.len() == 0 {
            Err(ArgErrorView::MissingRequired("<TASK>"@))
        } else if st.positionals.len() == 1 {
            Ok(CommandView::Start {
                task: st.positionals[0],
                description: st.values[0],
                project: st.values[1],
                customer: st.values[2],
            })
        } else {
            Err(ArgErrorView::UnexpectedArgument(st.positionals[1]))
        },
    }
}

/// `export date`: one date and the output options.
pub open spec fn spec_export_date(rest: Seq<Seq<char>>) -> Result<CommandView, ArgErrorView> {
    match scan(rest, date_defs(), empty_scan(2)) {
        Err(e) => Err(e),
        Ok(st) => if st.positionals.len() == 0 {
            Err(ArgErrorView::MissingRequired("<DATE>"@))
        } else if st.positionals.len() == 1 {
            Ok(CommandView::ExportDate {
                date: st.positionals[0],
                stdout: st.values[0] is Some,
                out_dir: st.values[1],
            })
        } else {
            Err(ArgErrorView::UnexpectedArgument(st.positionals[1]))
        },
    }
}

/// `export range`: one or two range arguments and the range options.
pub open spec fn spec_export_range(rest: Seq<Seq<char>>) -> Result<CommandView, ArgErrorView> {
    match scan(rest, range_defs(), empty_scan(3)) {
        Err(e) => Err(e),
        Ok(st) => if st.positionals.len() == 0 {
            Err(ArgErrorView::MissingRequired("<DATE|all>"@))
        } else if st.positionals.len() <= 2 {
            Ok(CommandView::ExportRange {
                range: st.positionals,
                individual: st.values[0] is Some,
                stdout: st.values[1] is Some,
                out_dir: st.values[2],
            })
        } else {
            Err(ArgErrorView::UnexpectedArgument(st.positionals[2]))
        },
    }
}

/// A word that asks for help: `help`, `-h` or `--help`.
pub open spec fn is_help_word(t: Seq<char>) -> bool {
    t == "help"@ || is_help_token(t)
}

/// `session` and its subcommands.
pub open spec fn spec_session(toks: Seq<Seq<char>>) -> Result<CommandView, ArgErrorView> {
    if toks.len() < 2 {
        Err(ArgErrorView::MissingSubcommand)
    } else {
        let s = toks[1];
        let rest = toks.skip(2);
        if is_help_word(s) {
            Err(ArgErrorView::HelpRequested)
        } else if s == "start"@ {
            spec_start(rest)
        } else if s == "stop"@ {
            no_args(rest, CommandView::Stop)
        } else if s == "pause"@ {
            no_args(rest, CommandView::Pause)
        } else if s == "resume"@ {
            no_args(rest, CommandView::Resume)
        } else if s == "status"@ {
            no_args(rest, CommandView::Status)
        } else if is_option_like(s) {
            Err(ArgErrorView::UnexpectedArgument(s))
        } else {
            Err(ArgErrorView::UnknownSubcommand(s))
        }
    }
}

/// `export` and its subcommands.
pub open spec fn spec_export(toks: Seq<Seq<char>>) -> Result<CommandView, ArgErrorView> {
    if toks.len() < 2 {
        Err(ArgErrorView::MissingSubcommand)
    } else {
        let s = toks[1];
        let rest = toks.skip(2);
        if is_help_word(s) {
            Err(ArgErrorView::HelpRequested)
        } else if s == "date"@ {
            spec_export_date(rest)
        } else if s == "range"@ {
            spec_export_range(rest)
        } else if s == "list-dates"@ {
            no_args(rest, CommandView::ExportListDates)
        } else if is_option_like(s) {
            Err(ArgErrorView::UnexpectedArgument(s))
        } else {
            Err(ArgErrorView::UnknownSubcommand(s))
        }
    }
}

/// The command line `args` (program name first) read by the tool's grammar:
/// `session (start TASK [-d|--description D] [--project P] [--customer C] | stop | pause |
/// resume | status)`, `doctor`, `export (date DATE | range (all | START END) [--individual]
/// | list-dates)` with `[--stdout] [--out-dir DIR]` on `date` and `range`; `help`, `-h`,
/// `--help`, `-V` and `--version` ask for help or the version.
pub open spec fn spec_parse_cli(args: Seq<Seq<char>>) -> Result<CommandView, ArgErrorView> {
    let toks = if args.len() == 0 { args } else { args.skip(1) };
    if toks.len() == 0 {
        Err(ArgErrorView::MissingSubcommand)
    } else {
        let t = toks[0];
        if is_help_word(t) {
            Err(ArgErrorView::HelpRequested)
        } else if t == "-V"@ || t == "--version"@ {
            Err(ArgErrorView::VersionRequested)
        } else if t == "doctor"@ {
            no_args(toks.skip(1), CommandView::Doctor)
        } else if t == "session"@ {
            spec_session(toks)
        } else if t == "export"@ {
            spec_export(toks)
        } else if is_option_like(t) {
            Err(ArgErrorView::UnexpectedArgument(t))
        } else {
            Err(ArgErrorView::UnknownSubcommand(t))
        }
    }
}

fn start_option_defs() -> (res: Vec<OptDef>)
    ensures
        defs_view(res@) == start_defs(),
{
    let res = vec![
        OptDef { long: "description", short: Some('d'), takes_value: true },
        OptDef { long: "project", short: None, takes_value: true },
        OptDef { long: "customer", short: None, takes_value: true },
    ];
    assert(defs_view(res@) =~= start_defs());
    res
}

fn date_option_defs() -> (res: Vec<OptDef>)
    ensures
        defs_view(res@) == date_defs(),
{
    let res = vec![
        OptDef { long: "stdout", short: None, takes_value: false },
        OptDef { long: "out-dir", short: None, takes_value: true },
    ];
    assert(defs_view(res@) =~= date_defs());
    res
}

fn range_option_defs() -> (res: Vec<OptDef>)
    ensures
        defs_view(res@) == range_defs(),
{
    let res = vec![
        OptDef { long: "individual", short: None, takes_value: false },
        OptDef { long: "stdout", short: None, takes_value: false },
        OptDef { long: "out-dir", short: None, takes_value: true },
    ];
    assert(defs_view(res@) =~= range_defs());
    res
}

fn no_option_defs() -> (res: Vec<OptDef>)
    ensures
        defs_view(res@) == Seq::<OptSpec>::empty(),
{
    let res: Vec<OptDef> = Vec::new();
    assert(defs_view(res@) =~= Seq::<OptSpec>::empty());
    res
}

/// A copy of an optional string.
fn clone_opt(o: &Option<String>) -> (res: Option<String>)
    ensures
        opt_view(res) == opt_view(*o),
{
    match o {
        Some(s) => Some(s.clone()),
        None => None,
    }
}

fn leaf(toks: &Vec<String>, from: usize, v: Commands) -> (res: Result<Commands, ArgError>)
    requires
        from <= toks@.len(),
    ensures
        match no_args(views_of(toks@).skip(from as int), (Cli { command: v })@) {
            Ok(c) => (res matches Ok(x) && (Cli { command: x })@ == c),
            Err(e) => (res matches Err(err) && err@ == e),
        },
{
    let defs = no_option_defs();
    let st = scan_args(toks, from, &defs)?;
    if st.positionals.len() == 0 {
        Ok(v)
    } else {
        Err(ArgError::UnexpectedArgument(st.positionals[0].clone()))
    }
}

fn parse_start(toks: &Vec<String>, from: usize) -> (res: Result<Commands, ArgError>)
    requires
        from <= toks@.len(),
    ensures
        match spec_start(views_of(toks@).skip(from as int)) {
            Ok(c) => (res matches Ok(x) && (Cli { command: x })@ == c),
            Err(e) => (res matches Err(err) && err@ == e),
        },
{
    let defs = start_option_defs();
    let st = scan_args(toks, from, &defs)?;
    assert(st.positionals@.len() == st@.positionals.len());
    if st.positionals.len() == 0 {
        proof { reveal_strlit("<TASK>"); }
        return Err(ArgError::MissingRequired("<TASK>".to_owned()));
    }
    if st.positionals.len() > 1 {
        return Err(ArgError::UnexpectedArgument(st.positionals[1].clone()));
    }
    assert(st@.values[0] == opt_view(st.values@[0]));
    assert(st@.values[1] == opt_view(st.values@[1]));
    assert(st@.values[2] == opt_view(st.values@[2]));
    Ok(Commands::Session {
        command: SessionCommands::Start {
            task: st.positionals[0].clone(),
            description: clone_opt(&st.values[0]),
            project: clone_opt(&st.values[1]),
            customer: clone_opt(&st.values[2]),
        },
    })
}

fn parse_export_date(toks: &Vec<String>, from: usize) -> (res: Result<Commands, ArgError>)
    requires
        from <= toks@.len(),
    ensures
        match spec_export_date(views_of(toks@).skip(from as int)) {
            Ok(c) => (res matches Ok(x) && (Cli { command: x })@ == c),
            Err(e) => (res matches Err(err) && err@ == e),
        },
{
    let defs = date_option_defs();
    let st = scan_args(toks, from, &defs)?;
    if st.positionals.len() == 0 {
        proof { reveal_strlit("<DATE>"); }
        return Err(ArgError::MissingRequired("<DATE>".to_owned()));
    }
    if st.positionals.len() > 1 {
        return Err(ArgError::UnexpectedArgument(st.positionals[1].clone()));
    }
    assert(st@.values[0] == opt_view(st.values@[0]));
    assert(st@.values[1] == opt_view(st.values@[1]));
    Ok(Commands::Export {
        command: ExportCommands::Date(ExportDateArgs {
            date: st.positionals[0].clone(),
            output: ExportOutputArgs { stdout: st.values[0].is_some(), out_dir: clone_opt(&st.values[1]) },
        }),
    })
}

fn parse_export_range(toks: &Vec<String>, from: usize) -> (res: Result<Commands, ArgError>)
    requires
        from <= toks@.len(),
    ensures
        match spec_export_range(views_of(toks@).skip(from as int)) {
            Ok(c) => (res matches Ok(x) && (Cli { command: x })@ == c),
            Err(e) => (res matches Err(err) && err@ == e),
        },
{
    let defs = range_option_defs();
    let st = scan_args(toks, from, &defs)?;
    if st.positionals.len() == 0 {
        proof { reveal_strlit("<DATE|all>"); }
        return Err(ArgError::MissingRequired("<DATE|all>".to_owned()));
    }
    if st.positionals.len() > 2 {
        return Err(ArgError::UnexpectedArgument(st.positionals[2].clone()));
    }
    assert(st@.values[0] == opt_view(st.values@[0]));
    assert(st@.values[1] == opt_view(st.values@[1]));
    assert(st@.values[2] == opt_view(st.values@[2]));
    let individual = st.values[0].is_some();
    let stdout = st.values[1].is_some();
    let out_dir = clone_opt(&st.values[2]);
    let Scanned { positionals, values: _, raw: _ } = st;
    Ok(Commands::Export {
        command: ExportCommands::Range(ExportRangeArgs {
            range: positionals,
            individual,
            output: ExportOutputArgs { stdout, out_dir },
        }),
    })
}

fn is_help_word_exec(t: &str) -> (res: bool)
    ensures
        res == is_help_word(t@),
{
    str_eq(t, "help") || str_eq(t, "-h") || str_eq(t, "--help")
}

fn is_option_like_exec(t: &str) -> (res: bool)
    ensures
        res == is_option_like(t@),
{
    let cs = crate::text::chars_of(t);
    cs.len() >= 2 && cs[0] == '-'
}

fn parse_session(toks: &Vec<String>) -> (res: Result<Commands, ArgError>)
    requires
        toks@.len() >= 1,
    ensures
        match spec_session(views_of(toks@)) {
            Ok(c) => (res matches Ok(x) && (Cli { command: x })@ == c),
            Err(e) => (res matches Err(err) && err@ == e),
        },
{
    let ghost tv = views_of(toks@);
    if toks.len() < 2 {
        return Err(ArgError::MissingSubcommand);
    }
    let s = toks[1].as_str();
    assert(s@ == tv[1]);
    assert(tv.skip(2) == views_of(toks@).skip(2));
    if is_help_word_exec(s) {
        return Err(ArgError::HelpRequested);
    }
    if str_eq(s, "start") {
        return parse_start(toks, 2);
    }
    if str_eq(s, "stop") {
        return leaf(toks, 2, Commands::Session { command: SessionCommands::Stop });
    }
    if str_eq(s, "pause") {
        return leaf(toks, 2, Commands::Session { command: SessionCommands::Pause });
    }
    if str_eq(s, "resume") {
        return leaf(toks, 2, Commands::Session { command: SessionCommands::Resume });
    }
    if str_eq(s, "status") {
        return leaf(toks, 2, Commands::Session { command: SessionCommands::Status });
    }
    if is_option_like_exec(s) {
        return Err(ArgError::UnexpectedArgument(toks[1].clone()));
    }
    Err(ArgError::UnknownSubcommand(toks[1].clone()))
}

fn parse_export(toks: &Vec<String>) -> (res: Result<Commands, ArgError>)
    requires
        toks@.len() >= 1,
    ensures
        match spec_export(views_of(toks@)) {
            Ok(c) => (res matches Ok(x) && (Cli { command: x })@ == c),
            Err(e) => (res matches Err(err) && err@ == e),
        },
{
    let ghost tv = views_of(toks@);
    if toks.len() < 2 {
        return Err(ArgError::MissingSubcommand);
    }
    let s = toks[1].as_str();
    assert(s@ == tv[1]);
    if is_help_word_exec(s) {
        return Err(ArgError::HelpRequested);
    }
    if str_eq(s, "date") {
        return parse_export_date(toks, 2);
    }
    if str_eq(s, "range") {
        return parse_export_range(toks, 2);
    }
    if str_eq(s, "list-dates") {
        return leaf(toks, 2, Commands::Export { command: ExportCommands::ListDates });
    }
    if is_option_like_exec(s) {
        return Err(ArgError::UnexpectedArgument(toks[1].clone()));
    }
    Err(ArgError::UnknownSubcommand(toks[1].clone()))
}

/// The tokens after the program name.
fn tail_tokens(args: &Vec<String>) -> (res: Vec<String>)
    ensures
        views_of(res@) == (if args@.len() == 0 { views_of(args@) } else { views_of(args@).skip(1) }),
{
    let mut out: Vec<String> = Vec::new();
    if args.len() == 0 {
        assert(views_of(out@) =~= views_of(args@));
        return out;
    }
    let mut i: usize = 1;
    assert(views_of(out@) =~= views_of(args@).subrange(1, 1));
    while i < args.len()
        invariant
            1 <= i <= args@.len(),
            views_of(out@) == views_of(args@).subrange(1, i as int),
        decreases args.len() - i,
    {
        let ghost prev = out@;
        let c = args[i].clone();
        out.push(c);
        assert(out@ == prev.push(c));
        assert(views_of(out@) =~= views_of(prev).push(args@[i as int]@));
        i = i + 1;
        assert(views_of(out@) =~= views_of(args@).subrange(1, i as int));
    }
    assert(views_of(out@) =~= views_of(args@).skip(1));
    out
}

impl Cli {
    /// Reads a command line, program name first (see `spec_parse_cli`).
    pub fn try_parse_from(args: &Vec<String>) -> (res: Result<Cli, ArgError>)
        ensures
            match spec_parse_cli(views_of(args@)) {
                Ok(c) => (res matches Ok(x) && x@ == c),
                Err(e) => (res matches Err(err) && err@ == e),
            },
    {
        let toks = tail_tokens(args);
        let ghost tv = views_of(toks@);
        if toks.len() == 0 {
            return Err(ArgError::MissingSubcommand);
        }
        let t = toks[0].as_str();
        assert(t@ == tv[0]);
        if is_help_word_exec(t) {
            return Err(ArgError::HelpRequested);
        }
        if str_eq(t, "-V") || str_eq(t, "--version") {
            return Err(ArgError::VersionRequested);
        }
        let command = if str_eq(t, "doctor") {
            leaf(&toks, 1, Commands::Doctor)
        } else if str_eq(t, "session") {
            parse_session(&toks)
        } else if str_eq(t, "export") {
            parse_export(&toks)
        } else if is_option_like_exec(t) {
            Err(ArgError::UnexpectedArgument(toks[0].clone()))
        } else {
            Err(ArgError::UnknownSubcommand(toks[0].clone()))
        };
        match command {
            Ok(c) => Ok(Cli { command: c }),
            Err(e) => Err(e),
        }
    }
}

proof fn lemma_no_eq_sign(s: Seq<char>)
    requires
        forall|i: int| 0 <= i < s.len() ==> s[i] != '=',
    ensures
        first_eq_sign(s) is None,
    decreases s.len(),
{
    if s.len() > 0 {
        lemma_no_eq_sign(s.skip(1));
    }
}

proof fn lemma_reveal_words()
    ensures
        "--"@ =~= seq!['-', '-'],
        "-h"@ =~= seq!['-', 'h'],
        "--help"@ =~= seq!['-', '-', 'h', 'e', 'l', 'p'],
        "help"@ =~= seq!['h', 'e', 'l', 'p'],
        "-V"@ =~= seq!['-', 'V'],
        "--version"@.len() == 9,
        "export"@ =~= seq!['e', 'x', 'p', 'o', 'r', 't'],
        "session"@ =~= seq!['s', 'e', 's', 's', 'i', 'o', 'n'],
        "doctor"@ =~= seq!['d', 'o', 'c', 't', 'o', 'r'],
        "date"@ =~= seq!['d', 'a', 't', 'e'],
        "range"@ =~= seq!['r', 'a', 'n', 'g', 'e'],
        "start"@ =~= seq!['s', 't', 'a', 'r', 't'],
{
    reveal_strlit("--");
    reveal_strlit("-h");
    reveal_strlit("--help");
    reveal_strlit("help");
    reveal_strlit("-V");
    reveal_strlit("--version");
    reveal_strlit("export");
    reveal_strlit("session");
    reveal_strlit("doctor");
    reveal_strlit("date");
    reveal_strlit("range");
    reveal_strlit("start");
}

/// A positional argument is collected.
proof fn lemma_scan_positional(t: Seq<char>, rest: Seq<Seq<char>>, defs: Seq<OptSpec>, st: ScanView)
    requires
        !st.raw,
        !is_option_like(t),
    ensures
        scan(seq![t] + rest, defs, st)
            == scan(rest, defs, ScanView { positionals: st.positionals.push(t), values: st.values, raw: false }),
{
    let toks = seq![t] + rest;
    assert(toks[0] == t);
    assert(toks.skip(1) =~= rest);
}

/// `--name`, where `name` has no `=`, is neither `--` nor `--help`.
proof fn lemma_long_token(name: Seq<char>)
    requires
        name.len() >= 1,
        forall|k: int| 0 <= k < name.len() ==> name[k] != '=',
        name != "help"@,
    ensures
        is_option_like("--"@ + name),
        ("--"@ + name) != "--"@,
        !is_help_token("--"@ + name),
        ("--"@ + name)[1] == '-',
        long_parts("--"@ + name) == (name, None::<Seq<char>>),
{
    lemma_reveal_words();
    let t = "--"@ + name;
    assert(t.skip(2) =~= name);
    if t == "--help"@ {
        assert("--help"@.skip(2) =~= "help"@);
    }
    lemma_no_eq_sign(name);
}

/// A flag `--name` is recorded as given.
proof fn lemma_scan_long_flag(name: Seq<char>, rest: Seq<Seq<char>>, defs: Seq<OptSpec>, st: ScanView, i: int)
    requires
        !st.raw,
        name.len() >= 1,
        forall|k: int| 0 <= k < name.len() ==> name[k] != '=',
        name != "help"@,
        find_long(defs, name) == Some(i),
        0 <= i < defs.len(),
        0 <= i < st.values.len(),
        st.values[i] is None,
        !defs[i].takes_value,
    ensures
        scan(seq!["--"@ + name] + rest, defs, st) == scan(rest, defs, set_value(st, i, seq![])),
{
    lemma_long_token(name);
    let toks = seq!["--"@ + name] + rest;
    assert(toks[0] == "--"@ + name);
    assert(toks.skip(1) =~= rest);
}

/// An option `--name VALUE` takes the next argument as its value.
proof fn lemma_scan_long_value(
    name: Seq<char>,
    v: Seq<char>,
    rest: Seq<Seq<char>>,
    defs: Seq<OptSpec>,
    st: ScanView,
    i: int,
)
    requires
        !st.raw,
        !is_option_like(v),
        name.len() >= 1,
        forall|k: int| 0 <= k < name.len() ==> name[k] != '=',
        name != "help"@,
        find_long(defs, name) == Some(i),
        0 <= i < defs.len(),
        0 <= i < st.values.len(),
        st.values[i] is None,
        defs[i].takes_value,
    ensures
        scan(seq!["--"@ + name, v] + rest, defs, st) == scan(rest, defs, set_value(st, i, v)),
{
    lemma_long_token(name);
    let toks = seq!["--"@ + name, v] + rest;
    assert(toks[0] == "--"@ + name);
    let r1 = toks.skip(1);
    assert(r1 =~= seq![v] + rest);
    assert(r1[0] == v);
    assert(r1.skip(1) =~= rest);
    assert(scan_next_value(r1, defs, st, i) == scan(rest, defs, set_value(st, i, v)));
}

/// An option `-c VALUE` takes the next argument as its value.
proof fn lemma_scan_short_value(
    c: char,
    v: Seq<char>,
    rest: Seq<Seq<char>>,
    defs: Seq<OptSpec>,
    st: ScanView,
    i: int,
)
    requires
        !st.raw,
        !is_option_like(v),
        c != '-',
        c != 'h',
        find_short(defs, c) == Some(i),
        0 <= i < defs.len(),
        0 <= i < st.values.len(),
        st.values[i] is None,
        defs[i].takes_value,
    ensures
        scan(seq![seq!['-', c], v] + rest, defs, st) == scan(rest, defs, set_value(st, i, v)),
{
    lemma_reveal_words();
    let t = seq!['-', c];
    let toks = seq![t, v] + rest;
    assert(toks[0] == t);
    assert(t != "--"@);
    assert(!is_help_token(t));
    assert(t.len() == 2 && t[1] == c && is_option_like(t));
    let r1 = toks.skip(1);
    assert(r1 =~= seq![v] + rest);
    assert(r1[0] == v);
    assert(r1.skip(1) =~= rest);
    assert(scan_next_value(r1, defs, st, i) == scan(rest, defs, set_value(st, i, v)));
}

proof fn lemma_scan_end(defs: Seq<OptSpec>, st: ScanView)
    ensures
        scan(Seq::<Seq<char>>::empty(), defs, st) == Ok::<ScanView, ArgErrorView>(st),
{
}

/// `PROG export date REST` is read as the `export date` arguments `REST`.
proof fn lemma_route_export_date(p: Seq<char>, rest: Seq<Seq<char>>)
    ensures
        spec_parse_cli(seq![p, "export"@, "date"@] + rest) == spec_export_date(rest),
{
    lemma_reveal_words();
    let args = seq![p, "export"@, "date"@] + rest;
    let toks = args.skip(1);
    assert(toks[0] == "export"@);
    assert(toks[1] == "date"@);
    assert(toks.skip(2) =~= rest);
}

/// `PROG export range REST` is read as the `export range` arguments `REST`.
proof fn lemma_route_export_range(p: Seq<char>, rest: Seq<Seq<char>>)
    ensures
        spec_parse_cli(seq![p, "export"@, "range"@] + rest) == spec_export_range(rest),
{
    lemma_reveal_words();
    let args = seq![p, "export"@, "range"@] + rest;
    let toks = args.skip(1);
    assert(toks[0] == "export"@);
    assert(toks[1] == "range"@);
    assert(toks.skip(2) =~= rest);
}

/// `PROG session start REST` is read as the `session start` arguments `REST`.
proof fn lemma_route_session_start(p: Seq<char>, rest: Seq<Seq<char>>)
    ensures
        spec_parse_cli(seq![p, "session"@, "start"@] + rest) == spec_start(rest),
{
    lemma_reveal_words();
    let args = seq![p, "session"@, "start"@] + rest;
    let toks = args.skip(1);
    assert(toks[0] == "session"@);
    assert(toks[1] == "start"@);
    assert(toks.skip(2) =~= rest);
}

proof fn lemma_option_words()
    ensures
        "--stdout"@ =~= "--"@ + "stdout"@,
        "--out-dir"@ =~= "--"@ + "out-dir"@,
        "--individual"@ =~= "--"@ + "individual"@,
        "--project"@ =~= "--"@ + "project"@,
        "--customer"@ =~= "--"@ + "customer"@,
        "-d"@ =~= seq!['-', 'd'],
        "stdout"@ =~= seq!['s', 't', 'd', 'o', 'u', 't'],
        "out-dir"@ =~= seq!['o', 'u', 't', '-', 'd', 'i', 'r'],
        "individual"@ =~= seq!['i', 'n', 'd', 'i', 'v', 'i', 'd', 'u', 'a', 'l'],
        "project"@ =~= seq!['p', 'r', 'o', 'j', 'e', 'c', 't'],
        "customer"@ =~= seq!['c', 'u', 's', 't', 'o', 'm', 'e', 'r'],
        "description"@.len() == 11,
        "help"@ =~= seq!['h', 'e', 'l', 'p'],
{
    reveal_strlit("--");
    reveal_strlit("--stdout");
    reveal_strlit("--out-dir");
    reveal_strlit("--individual");
    reveal_strlit("--project");
    reveal_strlit("--customer");
    reveal_strlit("-d");
    reveal_strlit("stdout");
    reveal_strlit("out-dir");
    reveal_strlit("individual");
    reveal_strlit("project");
    reveal_strlit("customer");
    reveal_strlit("description");
    reveal_strlit("help");
}

/// `export date D` writes a file into the default directory; `--stdout`, before or after
/// the date, asks for standard output instead, and `--out-dir DIR` names the directory.
pub proof fn law_export_date_command_line(p: Seq<char>, d: Seq<char>, dir: Seq<char>)
    requires
        !is_option_like(d),
        !is_option_like(dir),
    ensures
        spec_parse_cli(seq![p, "export"@, "date"@, d])
            == Ok::<CommandView, ArgErrorView>(CommandView::ExportDate { date: d, stdout: false, out_dir: None }),
        spec_parse_cli(seq![p, "export"@, "date"@, d, "--stdout"@])
            == Ok::<CommandView, ArgErrorView>(CommandView::ExportDate { date: d, stdout: true, out_dir: None }),
        spec_parse_cli(seq![p, "export"@, "date"@, "--stdout"@, d])
            == Ok::<CommandView, ArgErrorView>(CommandView::ExportDate { date: d, stdout: true, out_dir: None }),
        spec_parse_cli(seq![p, "export"@, "date"@, d, "--out-dir"@, dir])
            == Ok::<CommandView, ArgErrorView>(CommandView::ExportDate { date: d, stdout: false, out_dir: Some(dir) }),
        spec_parse_cli(seq![p, "export"@, "date"@, d, "--stdout"@, "--out-dir"@, dir])
            == Ok::<CommandView, ArgErrorView>(CommandView::ExportDate { date: d, stdout: true, out_dir: Some(dir) }),
{
    lemma_option_words();
    let defs = date_defs();
    let stdout = "stdout"@;
    let out_dir = "out-dir"@;
    assert(find_long(defs, stdout) == Some(0int));
    assert(defs.skip(1)[0].long == out_dir);
    assert(find_long(defs.skip(1), out_dir) == Some(0int));
    assert(find_long(defs, out_dir) == Some(1int));
    let e = Seq::<Seq<char>>::empty();
    let st0 = empty_scan(2);
    let pos = ScanView { positionals: seq![d], values: st0.values, raw: false };
    assert(st0.positionals.push(d) =~= seq![d]);
    let head = seq![p, "export"@, "date"@];

    // D
    lemma_route_export_date(p, seq![d]);
    assert(head + seq![d] =~= seq![p, "export"@, "date"@, d]);
    assert(seq![d] =~= seq![d] + e);
    lemma_scan_positional(d, e, defs, st0);
    lemma_scan_end(defs, pos);

    // D --stdout
    let r2 = seq![d, "--stdout"@];
    lemma_route_export_date(p, r2);
    assert(head + r2 =~= seq![p, "export"@, "date"@, d, "--stdout"@]);
    assert(r2 =~= seq![d] + seq!["--"@ + stdout]);
    assert(seq!["--"@ + stdout] =~= seq!["--"@ + stdout] + e);
    lemma_scan_positional(d, seq!["--"@ + stdout], defs, st0);
    lemma_scan_long_flag(stdout, e, defs, pos, 0);
    lemma_scan_end(defs, set_value(pos, 0, seq![]));

    // --stdout D
    let r3 = seq!["--stdout"@, d];
    lemma_route_export_date(p, r3);
    assert(head + r3 =~= seq![p, "export"@, "date"@, "--stdout"@, d]);
    assert(r3 =~= seq!["--"@ + stdout] + seq![d]);
    let f0 = set_value(st0, 0, seq![]);
    lemma_scan_long_flag(stdout, seq![d], defs, st0, 0);
    assert(seq![d] =~= seq![d] + e);
    lemma_scan_positional(d, e, defs, f0);
    assert(f0.positionals.push(d) =~= seq![d]);
    lemma_scan_end(defs, ScanView { positionals: f0.positionals.push(d), values: f0.values, raw: false });

    // D --out-dir DIR
    let r4 = seq![d, "--out-dir"@, dir];
    lemma_route_export_date(p, r4);
    assert(head + r4 =~= seq![p, "export"@, "date"@, d, "--out-dir"@, dir]);
    assert(r4 =~= seq![d] + (seq!["--"@ + out_dir, dir] + e));
    lemma_scan_positional(d, seq!["--"@ + out_dir, dir] + e, defs, st0);
    lemma_scan_long_value(out_dir, dir, e, defs, pos, 1);
    lemma_scan_end(defs, set_value(pos, 1, dir));

    // D --stdout --out-dir DIR
    let r5 = seq![d, "--stdout"@, "--out-dir"@, dir];
    lemma_route_export_date(p, r5);
    assert(head + r5 =~= seq![p, "export"@, "date"@, d, "--stdout"@, "--out-dir"@, dir]);
    assert(r5 =~= seq![d] + (seq!["--"@ + stdout] + (seq!["--"@ + out_dir, dir] + e)));
    lemma_scan_positional(d, seq!["--"@ + stdout] + (seq!["--"@ + out_dir, dir] + e), defs, st0);
    lemma_scan_long_flag(stdout, seq!["--"@ + out_dir, dir] + e, defs, pos, 0);
    let g0 = set_value(pos, 0, seq![]);
    lemma_scan_long_value(out_dir, dir, e, defs, g0, 1);
    lemma_scan_end(defs, set_value(g0, 1, dir));
}

/// A flag `--name` given a second time is refused, naming the option.
proof fn lemma_scan_long_repeated(name: Seq<char>, rest: Seq<Seq<char>>, defs: Seq<OptSpec>, st: ScanView, i: int)
    requires
        !st.raw,
        name.len() >= 1,
        forall|k: int| 0 <= k < name.len() ==> name[k] != '=',
        name != "help"@,
        find_long(defs, name) == Some(i),
        0 <= i < defs.len(),
        0 <= i < st.values.len(),
        st.values[i] is Some,
    ensures
        scan(seq!["--"@ + name] + rest, defs, st) == Err::<ScanView, ArgErrorView>(ArgErrorView::RepeatedOption(defs[i].long)),
{
    lemma_long_token(name);
    let toks = seq!["--"@ + name] + rest;
    assert(toks[0] == "--"@ + name);
}

/// An option `--name` that needs a value and ends the line is refused, naming the option.
proof fn lemma_scan_long_missing_value(name: Seq<char>, defs: Seq<OptSpec>, st: ScanView, i: int)
    requires
        !st.raw,
        name.len() >= 1,
        forall|k: int| 0 <= k < name.len() ==> name[k] != '=',
        name != "help"@,
        find_long(defs, name) == Some(i),
        0 <= i < defs.len(),
        0 <= i < st.values.len(),
        st.values[i] is None,
        defs[i].takes_value,
    ensures
        scan(seq!["--"@ + name], defs, st) == Err::<ScanView, ArgErrorView>(ArgErrorView::MissingValue(defs[i].long)),
{
    lemma_long_token(name);
    let toks = seq!["--"@ + name];
    assert(toks[0] == "--"@ + name);
    assert(toks.skip(1) =~= Seq::<Seq<char>>::empty());
    assert(scan_next_value(Seq::<Seq<char>>::empty(), defs, st, i)
        == Err::<ScanView, ArgErrorView>(ArgErrorView::MissingValue(defs[i].long)));
}

/// `export date` is refused without a date, with `--stdout` given twice, and with
/// `--out-dir` given no directory; a command line with no command is refused too.
pub proof fn law_export_date_refusals(p: Seq<char>, d: Seq<char>)
    requires
        !is_option_like(d),
    ensures
        spec_parse_cli(seq![p]) == Err::<CommandView, ArgErrorView>(ArgErrorView::MissingSubcommand),
        spec_parse_cli(seq![p, "export"@, "date"@])
            == Err::<CommandView, ArgErrorView>(ArgErrorView::MissingRequired("<DATE>"@)),
        spec_parse_cli(seq![p, "export"@, "date"@, d, "--stdout"@, "--stdout"@])
            == Err::<CommandView, ArgErrorView>(ArgErrorView::RepeatedOption("stdout"@)),
        spec_parse_cli(seq![p, "export"@, "date"@, d, "--out-dir"@])
            == Err::<CommandView, ArgErrorView>(ArgErrorView::MissingValue("out-dir"@)),
{
    lemma_option_words();
    let defs = date_defs();
    let stdout = "stdout"@;
    let out_dir = "out-dir"@;
    assert(find_long(defs, stdout) == Some(0int));
    assert(defs.skip(1)[0].long == out_dir);
    assert(find_long(defs.skip(1), out_dir) == Some(0int));
    assert(find_long(defs, out_dir) == Some(1int));
    let e = Seq::<Seq<char>>::empty();
    let st0 = empty_scan(2);
    let pos = ScanView { positionals: seq![d], values: st0.values, raw: false };
    assert(st0.positionals.push(d) =~= seq![d]);
    let head = seq![p, "export"@, "date"@];

    // no command
    assert(seq![p].skip(1) =~= e);

    // no date
    lemma_route_export_date(p, e);
    assert(head + e =~= head);
    lemma_scan_end(defs, st0);

    // --stdout twice
    let r2 = seq![d, "--stdout"@, "--stdout"@];
    lemma_route_export_date(p, r2);
    assert(head + r2 =~= seq![p, "export"@, "date"@, d, "--stdout"@, "--stdout"@]);
    assert(r2 =~= seq![d] + (seq!["--"@ + stdout] + seq!["--"@ + stdout]));
    lemma_scan_positional(d, seq!["--"@ + stdout] + seq!["--"@ + stdout], defs, st0);
    lemma_scan_long_flag(stdout, seq!["--"@ + stdout], defs, pos, 0);
    assert(seq!["--"@ + stdout] =~= seq!["--"@ + stdout] + e);
    lemma_scan_long_repeated(stdout, e, defs, set_value(pos, 0, seq![]), 0);

    // --out-dir with nothing after it
    let r3 = seq![d, "--out-dir"@];
    lemma_route_export_date(p, r3);
    assert(head + r3 =~= seq![p, "export"@, "date"@, d, "--out-dir"@]);
    assert(r3 =~= seq![d] + seq!["--"@ + out_dir]);
    lemma_scan_positional(d, seq!["--"@ + out_dir], defs, st0);
    lemma_scan_long_missing_value(out_dir, defs, pos, 1);
}

/// `export range` takes one argument (`all` or a date) or two (start and end dates);
/// `--individual` asks for one file per day, `--stdout` for standard output, and
/// `--out-dir DIR` names the directory; each flag is off unless given.
pub proof fn law_export_range_command_line(p: Seq<char>, a: Seq<char>, b: Seq<char>, dir: Seq<char>)
    requires
        !is_option_like(a),
        !is_option_like(b),
        !is_option_like(dir),
    ensures
        spec_parse_cli(seq![p, "export"@, "range"@, a]) == Ok::<CommandView, ArgErrorView>(
            CommandView::ExportRange { range: seq![a], individual: false, stdout: false, out_dir: None },
        ),
        spec_parse_cli(seq![p, "export"@, "range"@, a, b, "--stdout"@]) == Ok::<CommandView, ArgErrorView>(
            CommandView::ExportRange { range: seq![a, b], individual: false, stdout: true, out_dir: None },
        ),
        spec_parse_cli(seq![p, "export"@, "range"@, a, "--individual"@, "--out-dir"@, dir])
            == Ok::<CommandView, ArgErrorView>(
            CommandView::ExportRange { range: seq![a], individual: true, stdout: false, out_dir: Some(dir) },
        ),
{
    lemma_option_words();
    let defs = range_defs();
    let individual = "individual"@;
    let stdout = "stdout"@;
    let out_dir = "out-dir"@;
    assert(find_long(defs, individual) == Some(0int));
    assert(defs.skip(1)[0].long == stdout);
    assert(find_long(defs.skip(1), stdout) == Some(0int));
    assert(find_long(defs, stdout) == Some(1int));
    assert(defs.skip(1).skip(1)[0].long == out_dir);
    assert(find_long(defs.skip(1).skip(1), out_dir) == Some(0int));
    assert(find_long(defs.skip(1), out_dir) == Some(1int));
    assert(find_long(defs, out_dir) == Some(2int));
    let e = Seq::<Seq<char>>::empty();
    let st0 = empty_scan(3);
    let pa = ScanView { positionals: seq![a], values: st0.values, raw: false };
    assert(st0.positionals.push(a) =~= seq![a]);
    let pab = ScanView { positionals: seq![a, b], values: st0.values, raw: false };
    assert(pa.positionals.push(b) =~= seq![a, b]);
    let head = seq![p, "export"@, "range"@];

    // A
    lemma_route_export_range(p, seq![a]);
    assert(head + seq![a] =~= seq![p, "export"@, "range"@, a]);
    assert(seq![a] =~= seq![a] + e);
    lemma_scan_positional(a, e, defs, st0);
    lemma_scan_end(defs, pa);

    // A B --stdout
    let r2 = seq![a, b, "--stdout"@];
    lemma_route_export_range(p, r2);
    assert(head + r2 =~= seq![p, "export"@, "range"@, a, b, "--stdout"@]);
    assert(r2 =~= seq![a] + (seq![b] + (seq!["--"@ + stdout] + e)));
    lemma_scan_positional(a, seq![b] + (seq!["--"@ + stdout] + e), defs, st0);
    lemma_scan_positional(b, seq!["--"@ + stdout] + e, defs, pa);
    lemma_scan_long_flag(stdout, e, defs, pab, 1);
    lemma_scan_end(defs, set_value(pab, 1, seq![]));

    // A --individual --out-dir DIR
    let r3 = seq![a, "--individual"@, "--out-dir"@, dir];
    lemma_route_export_range(p, r3);
    assert(head + r3 =~= seq![p, "export"@, "range"@, a, "--individual"@, "--out-dir"@, dir]);
    assert(r3 =~= seq![a] + (seq!["--"@ + individual] + (seq!["--"@ + out_dir, dir] + e)));
    lemma_scan_positional(a, seq!["--"@ + individual] + (seq!["--"@ + out_dir, dir] + e), defs, st0);
    lemma_scan_long_flag(individual, seq!["--"@ + out_dir, dir] + e, defs, pa, 0);
    let g0 = set_value(pa, 0, seq![]);
    lemma_scan_long_value(out_dir, dir, e, defs, g0, 2);
    lemma_scan_end(defs, set_value(g0, 2, dir));
}

/// `session start TASK` takes the task name as its one argument; `-d DESC`, `--project P`
/// and `--customer C` fill the description, project and customer, each left unset unless
/// given.
pub proof fn law_session_start_command_line(
    p: Seq<char>,
    task: Seq<char>,
    desc: Seq<char>,
    project: Seq<char>,
    customer: Seq<char>,
)
    requires
        !is_option_like(task),
        !is_option_like(desc),
        !is_option_like(project),
        !is_option_like(customer),
    ensures
        spec_parse_cli(seq![p, "session"@, "start"@, task]) == Ok::<CommandView, ArgErrorView>(
            CommandView::Start { task, description: None, project: None, customer: None },
        ),
        spec_parse_cli(seq![p, "session"@, "start"@, task, "--project"@, project, "--customer"@, customer])
            == Ok::<CommandView, ArgErrorView>(
            CommandView::Start { task, description: None, project: Some(project), customer: Some(customer) },
        ),
        spec_parse_cli(
            seq![p, "session"@, "start"@, task, "-d"@, desc, "--project"@, project, "--customer"@, customer],
        ) == Ok::<CommandView, ArgErrorView>(
            CommandView::Start { task, description: Some(desc), project: Some(project), customer: Some(customer) },
        ),
{
    lemma_option_words();
    let defs = start_defs();
    let pr = "project"@;
    let cu = "customer"@;
    assert(find_short(defs, 'd') == Some(0int));
    assert(defs.skip(1)[0].long == pr);
    assert(find_long(defs.skip(1), pr) == Some(0int));
    assert(find_long(defs, pr) == Some(1int));
    assert(defs.skip(1).skip(1)[0].long == cu);
    assert(find_long(defs.skip(1).skip(1), cu) == Some(0int));
    assert(find_long(defs.skip(1), cu) == Some(1int));
    assert(find_long(defs, cu) == Some(2int));
    let e = Seq::<Seq<char>>::empty();
    let st0 = empty_scan(3);
    let pt = ScanView { positionals: seq![task], values: st0.values, raw: false };
    assert(st0.positionals.push(task) =~= seq![task]);
    let head = seq![p, "session"@, "start"@];

    // TASK
    lemma_route_session_start(p, seq![task]);
    assert(head + seq![task] =~= seq![p, "session"@, "start"@, task]);
    assert(seq![task] =~= seq![task] + e);
    lemma_scan_positional(task, e, defs, st0);
    lemma_scan_end(defs, pt);

    // TASK --project P --customer C
    let r2 = seq![task, "--project"@, project, "--customer"@, customer];
    lemma_route_session_start(p, r2);
    assert(head + r2 =~= seq![p, "session"@, "start"@, task, "--project"@, project, "--customer"@, customer]);
    assert(r2 =~= seq![task] + (seq!["--"@ + pr, project] + (seq!["--"@ + cu, customer] + e)));
    lemma_scan_positional(task, seq!["--"@ + pr, project] + (seq!["--"@ + cu, customer] + e), defs, st0);
    lemma_scan_long_value(pr, project, seq!["--"@ + cu, customer] + e, defs, pt, 1);
    let g1 = set_value(pt, 1, project);
    lemma_scan_long_value(cu, customer, e, defs, g1, 2);
    lemma_scan_end(defs, set_value(g1, 2, customer));

    // TASK -d DESC --project P --customer C
    let r3 = seq![task, "-d"@, desc, "--project"@, project, "--customer"@, customer];
    lemma_route_session_start(p, r3);
    assert(head + r3 =~= seq![p, "session"@, "start"@, task, "-d"@, desc, "--project"@, project, "--customer"@, customer]);
    assert(r3 =~= seq![task] + (seq![seq!['-', 'd'], desc] + (seq!["--"@ + pr, project] + (seq!["--"@ + cu, customer] + e))));
    lemma_scan_positional(task, seq![seq!['-', 'd'], desc] + (seq!["--"@ + pr, project] + (seq!["--"@ + cu, customer] + e)), defs, st0);
    lemma_scan_short_value('d', desc, seq!["--"@ + pr, project] + (seq!["--"@ + cu, customer] + e), defs, pt, 0);
    let h0 = set_value(pt, 0, desc);
    lemma_scan_long_value(pr, project, seq!["--"@ + cu, customer] + e, defs, h0, 1);
    let h1 = set_value(h0, 1, project);
    lemma_scan_long_value(cu, customer, e, defs, h1, 2);
    lemma_scan_end(defs, set_value(h1, 2, customer));
}

/// `{h}h {mm}m {ss}s` when there are whole hours, `{m}m {ss}s` otherwise.
pub open spec fn spec_format_duration(total_secs: nat) -> Seq<char> {
    let hours = total_secs / 3600;
    let minutes = (total_secs % 3600) / 60;
    let seconds = total_secs % 60;
    if hours > 0 {
        decimal(hours) + "h "@ + padded_decimal(minutes, 2) + "m "@ + padded_decimal(seconds, 2) + "s"@
    } else {
        decimal(minutes) + "m "@ + padded_decimal(seconds, 2) + "s"@
    }
}

/// `h` hours, `m` minutes and `s` seconds read `{h}h {mm}m {ss}s` when there is at least an
/// hour, and `m` minutes and `s` seconds read `{m}m {ss}s` below an hour: the minutes after
/// hours, and the seconds, always in two digits.
pub proof fn law_duration_text(h: nat, m: nat, s: nat)
    requires
        m < 60,
        s < 60,
    ensures
        h > 0 ==> spec_format_duration(h * 3600 + m * 60 + s) == decimal(h) + seq![
            'h', ' ', digit_char((m / 10) as int), digit_char((m % 10) as int), 'm', ' ',
            digit_char((s / 10) as int), digit_char((s % 10) as int), 's',
        ],
        spec_format_duration(m * 60 + s) == decimal(m) + seq![
            'm', ' ', digit_char((s / 10) as int), digit_char((s % 10) as int), 's',
        ],
{
    reveal_strlit("h ");
    reveal_strlit("m ");
    reveal_strlit("s");
    lemma_pad2(m);
    lemma_pad2(s);
    let t = h * 3600 + m * 60 + s;
    vstd::arithmetic::div_mod::lemma_fundamental_div_mod_converse(t as int, 3600, h as int, (m * 60 + s) as int);
    vstd::arithmetic::div_mod::lemma_fundamental_div_mod_converse((m * 60 + s) as int, 60, m as int, s as int);
    vstd::arithmetic::div_mod::lemma_fundamental_div_mod_converse(t as int, 60, (h * 60 + m) as int, s as int);
    if h > 0 {
        assert(spec_format_duration(t) =~= decimal(h) + seq![
            'h', ' ', digit_char((m / 10) as int), digit_char((m % 10) as int), 'm', ' ',
            digit_char((s / 10) as int), digit_char((s % 10) as int), 's',
        ]);
    }
    let u = m * 60 + s;
    vstd::arithmetic::div_mod::lemma_fundamental_div_mod_converse(u as int, 3600, 0, u as int);
    vstd::arithmetic::div_mod::lemma_fundamental_div_mod_converse(u as int, 60, m as int, s as int);
    assert(spec_format_duration(u) =~= decimal(m) + seq![
        'm', ' ', digit_char((s / 10) as int), digit_char((s % 10) as int), 's',
    ]);
}

/// Renders a whole number of seconds for display (`1h 01m 01s`, `2m 05s`).
pub fn format_duration(total_secs: u64) -> (res: String)
    ensures
        res@ == spec_format_duration(total_secs as nat),
{
    let hours = total_secs / 3600;
    let minutes = (total_secs % 3600) / 60;
    let seconds = total_secs % 60;
    let mut out: Vec<char> = Vec::new();
    proof {
        reveal_strlit("h ");
        reveal_strlit("m ");
        reveal_strlit("s");
    }
    if hours > 0 {
        push_decimal(&mut out, hours);
        out.push('h');
        out.push(' ');
        push_padded(&mut out, minutes, 2);
        out.push('m');
        out.push(' ');
        push_padded(&mut out, seconds, 2);
        out.push('s');
    } else {
        push_decimal(&mut out, minutes);
        out.push('m');
        out.push(' ');
        push_padded(&mut out, seconds, 2);
        out.push('s');
    }
    assert(out@ =~= spec_format_duration(total_secs as nat));
    string_from_chars(&out)
}

/// `HH:MM:SS` of an instant's local clock reading.
pub fn format_time(dt: &DateTime) -> (res: String)
    ensures
        res@ == spec_clock_text(*dt),
{
    let mut out: Vec<char> = Vec::new();
    push_padded(&mut out, dt.hour as u64, 2);
    out.push(':');
    push_padded(&mut out, dt.minute as u64, 2);
    out.push(':');
    push_padded(&mut out, dt.second as u64, 2);
    assert(out@ =~= spec_clock_text(*dt));
    string_from_chars(&out)
}

} // verus!
