//! Scanning a subcommand's arguments into positionals and option values.

use vstd::prelude::*;
use crate::text::{chars_eq, chars_of, push_str, string_from_chars};

verus! {

/// One option a subcommand accepts: `--long`, perhaps `-s`, with or without a value.
pub struct OptDef {
    pub long: &'static str,
    pub short: Option<char>,
    pub takes_value: bool,
}

pub struct OptSpec {
    pub long: Seq<char>,
    pub short: Option<char>,
    pub takes_value: bool,
}

impl View for OptDef {
    type V = OptSpec;

    open spec fn view(&self) -> OptSpec {
        OptSpec { long: self.long@, short: self.short, takes_value: self.takes_value }
    }
}

/// Why a command line was not accepted (or asked for help or the version).
#[derive(Debug, PartialEq, Eq)]
pub enum ArgError {
    /// `-h`, `--help` or `help`.
    HelpRequested,
    /// `-V` or `--version`.
    VersionRequested,
    /// A command that needs a subcommand got none.
    MissingSubcommand,
    UnknownSubcommand(String),
    UnexpectedArgument(String),
    /// An option that takes a value got none (names the option's long form).
    MissingValue(String),
    /// An option was given twice (names the option's long form).
    RepeatedOption(String),
    /// A required positional argument is missing (names it).
    MissingRequired(String),
}

pub enum ArgErrorView {
    HelpRequested,
    VersionRequested,
    MissingSubcommand,
    UnknownSubcommand(Seq<char>),
    UnexpectedArgument(Seq<char>),
    MissingValue(Seq<char>),
    RepeatedOption(Seq<char>),
    MissingRequired(Seq<char>),
}

impl View for ArgError {
    type V = ArgErrorView;

    open spec fn view(&self) -> ArgErrorView {
        match self {
            ArgError::HelpRequested => ArgErrorView::HelpRequested,
            ArgError::VersionRequested => ArgErrorView::VersionRequested,
            ArgError::MissingSubcommand => ArgErrorView::MissingSubcommand,
            ArgError::UnknownSubcommand(s) => ArgErrorView::UnknownSubcommand(s@),
            ArgError::UnexpectedArgument(s) => ArgErrorView::UnexpectedArgument(s@),
            ArgError::MissingValue(s) => ArgErrorView::MissingValue(s@),
            ArgError::RepeatedOption(s) => ArgErrorView::RepeatedOption(s@),
            ArgError::MissingRequired(s) => ArgErrorView::MissingRequired(s@),
        }
    }
}

impl ArgError {
    /// The message shown for the error; help and version requests name the program.
    pub open spec fn message_text(&self) -> Seq<char> {
        match self {
            ArgError::HelpRequested => "Usage: work-tuimer [COMMAND]"@,
            ArgError::VersionRequested => "work-tuimer"@,
            ArgError::MissingSubcommand => "error: a subcommand is required but one was not provided"@,
            ArgError::UnknownSubcommand(s) => "error: unrecognized subcommand '"@ + s@ + "'"@,
            ArgError::UnexpectedArgument(s) => "error: unexpected argument '"@ + s@ + "' found"@,
            ArgError::MissingValue(s) => "error: a value is required for '--"@ + s@ + "' but none was supplied"@,
            ArgError::RepeatedOption(s) => "error: the argument '--"@ + s@ + "' cannot be used multiple times"@,
            ArgError::MissingRequired(s) => "error: the following required arguments were not provided: "@ + s@,
        }
    }

    /// The message shown for the error (see `message_text`).
    pub fn message(&self) -> (res: String)
        ensures
            res@ == self.message_text(),
    {
        let mut out: Vec<char> = Vec::new();
        match self {
            ArgError::HelpRequested => push_str(&mut out, "Usage: work-tuimer [COMMAND]"),
            ArgError::VersionRequested => push_str(&mut out, "work-tuimer"),
            ArgError::MissingSubcommand => push_str(&mut out, "error: a subcommand is required but one was not provided"),
            ArgError::UnknownSubcommand(s) => {
                push_str(&mut out, "error: unrecognized subcommand '");
                push_str(&mut out, s.as_str());
                push_str(&mut out, "'");
            },
            ArgError::UnexpectedArgument(s) => {
                push_str(&mut out, "error: unexpected argument '");
                push_str(&mut out, s.as_str());
                push_str(&mut out, "' found");
            },
            ArgError::MissingValue(s) => {
                push_str(&mut out, "error: a value is required for '--");
                push_str(&mut out, s.as_str());
                push_str(&mut out, "' but none was supplied");
            },
            ArgError::RepeatedOption(s) => {
                push_str(&mut out, "error: the argument '--");
                push_str(&mut out, s.as_str());
                push_str(&mut out, "' cannot be used multiple times");
            },
            ArgError::MissingRequired(s) => {
                push_str(&mut out, "error: the following required arguments were not provided: ");
                push_str(&mut out, s.as_str());
            },
        }
        string_from_chars(&out)
    }
}

/// What scanning has collected so far.
pub struct ScanView {
    pub positionals: Seq<Seq<char>>,
    /// One entry per option: its value (empty for a flag) once it was given.
    pub values: Seq<Option<Seq<char>>>,
    /// A `--` was seen: everything after it is positional.
    pub raw: bool,
}

/// Starts with `-` and is more than a lone `-`.
pub open spec fn is_option_like(t: Seq<char>) -> bool {
    t.len() >= 2 && t[0] == '-'
}

pub open spec fn is_help_token(t: Seq<char>) -> bool {
    t == "-h"@ || t == "--help"@
}

/// The first option whose long form is `name`.
pub open spec fn find_long(defs: Seq<OptSpec>, name: Seq<char>) -> Option<int>
    decreases defs.len(),
{
    if defs.len() == 0 {
        None
    } else if defs[0].long == name {
        Some(0)
    } else {
        match find_long(defs.skip(1), name) {
            Some(i) => Some(i + 1),
            None => None,
        }
    }
}

/// The first option whose short form is `c`.
pub open spec fn find_short(defs: Seq<OptSpec>, c: char) -> Option<int>
    decreases defs.len(),
{
    if defs.len() == 0 {
        None
    } else if defs[0].short == Some(c) {
        Some(0)
    } else {
        match find_short(defs.skip(1), c) {
            Some(i) => Some(i + 1),
            None => None,
        }
    }
}

/// The position of the first `=` in `s`.
pub open spec fn first_eq_sign(s: Seq<char>) -> Option<int>
    decreases s.len(),
{
    if s.len() == 0 {
        None
    } else if s[0] == '=' {
        Some(0)
    } else {
        match first_eq_sign(s.skip(1)) {
            Some(i) => Some(i + 1),
            None => None,
        }
    }
}

/// `--name` or `--name=value`: the name, and the inline value if any.
pub open spec fn long_parts(t: Seq<char>) -> (Seq<char>, Option<Seq<char>>) {
    let body = t.skip(2);
    match first_eq_sign(body) {
        Some(k) => (body.take(k), Some(body.skip(k + 1))),
        None => (body, None),
    }
}

/// `-sVALUE` or `-s=VALUE`: the attached value.
pub open spec fn short_attached(t: Seq<char>) -> Seq<char> {
    if t[2] == '=' { t.skip(3) } else { t.skip(2) }
}

pub open spec fn set_value(st: ScanView, i: int, v: Seq<char>) -> ScanView {
    ScanView { positionals: st.positionals, values: st.values.update(i, Some(v)), raw: st.raw }
}

/// The value that follows an option as the next argument, when that argument is not itself
/// option-like; then scanning goes on after it.
pub open spec fn scan_next_value(
    rest: Seq<Seq<char>>,
    defs: Seq<OptSpec>,
    st: ScanView,
    i: int,
) -> Result<ScanView, ArgErrorView>
    decreases rest.len(), 0int,
{
    if rest.len() == 0 || is_option_like(rest[0]) {
        Err(ArgErrorView::MissingValue(defs[i].long))
    } else {
        scan(rest.skip(1), defs, set_value(st, i, rest[0]))
    }
}

/// Scans `toks` left to right: positionals are collected; `--` makes the rest positional;
/// `-h`/`--help` asks for help; options are looked up by long or short form, each allowed
/// once, a value taken inline (`--o=v`, `-ov`, `-o=v`) or from the next argument.
pub open spec fn scan(toks: Seq<Seq<char>>, defs: Seq<OptSpec>, st: ScanView) -> Result<ScanView, ArgErrorView>
    decreases toks.len(), 1int,
{
    if toks.len() == 0 {
        Ok(st)
    } else {
        let t = toks[0];
        let rest = toks.skip(1);
        if st.raw || !is_option_like(t) {
            scan(rest, defs, ScanView { positionals: st.positionals.push(t), values: st.values, raw: st.raw })
        } else if t == "--"@ {
            scan(rest, defs, ScanView { positionals: st.positionals, values: st.values, raw: true })
        } else if is_help_token(t) {
            Err(ArgErrorView::HelpRequested)
        } else if t[1] == '-' {
            let (name, inline) = long_parts(t);
            match find_long(defs, name) {
                None => Err(ArgErrorView::UnexpectedArgument(t)),
                Some(i) => if st.values[i] is Some {
                    Err(ArgErrorView::RepeatedOption(defs[i].long))
                } else if defs[i].takes_value {
                    match inline {
                        Some(v) => scan(rest, defs, set_value(st, i, v)),
                        None => scan_next_value(rest, defs, st, i),
                    }
                } else {
                    match inline {
                        Some(_) => Err(ArgErrorView::UnexpectedArgument(t)),
                        None => scan(rest, defs, set_value(st, i, seq![])),
                    }
                },
            }
        } else {
            match find_short(defs, t[1]) {
                None => Err(ArgErrorView::UnexpectedArgument(t)),
                Some(i) => if st.values[i] is Some {
                    Err(ArgErrorView::RepeatedOption(defs[i].long))
                } else if defs[i].takes_value {
                    if t.len() > 2 {
                        scan(rest, defs, set_value(st, i, short_attached(t)))
                    } else {
                        scan_next_value(rest, defs, st, i)
                    }
                } else if t.len() > 2 {
                    Err(ArgErrorView::UnexpectedArgument(t))
                } else {
                    scan(rest, defs, set_value(st, i, seq![]))
                },
            }
        }
    }
}

pub open spec fn empty_scan(n: nat) -> ScanView {
    ScanView { positionals: seq![], values: Seq::new(n, |_i: int| None), raw: false }
}

/// The result of scanning, as plain values.
pub struct Scanned {
    pub positionals: Vec<String>,
    pub values: Vec<Option<String>>,
    pub raw: bool,
}

pub open spec fn opt_view(o: Option<String>) -> Option<Seq<char>> {
    match o {
        Some(s) => Some(s@),
        None => None,
    }
}

impl View for Scanned {
    type V = ScanView;

    open spec fn view(&self) -> ScanView {
        ScanView {
            positionals: self.positionals@.map_values(|s: String| s@),
            values: self.values@.map_values(|o: Option<String>| opt_view(o)),
            raw: self.raw,
        }
    }
}

pub open spec fn views_of(toks: Seq<String>) -> Seq<Seq<char>> {
    toks.map_values(|s: String| s@)
}

pub open spec fn defs_view(defs: Seq<OptDef>) -> Seq<OptSpec> {
    defs.map_values(|d: OptDef| d@)
}

fn sub_chars(cs: &Vec<char>, from: usize) -> (res: Vec<char>)
    requires
        from <= cs@.len(),
    ensures
        res@ == cs@.skip(from as int),
{
    let mut out: Vec<char> = Vec::new();
    let mut i = from;
    while i < cs.len()
        invariant
            from <= i <= cs@.len(),
            out@ == cs@.subrange(from as int, i as int),
        decreases cs.len() - i,
    {
        out.push(cs[i]);
        i = i + 1;
        assert(out@ =~= cs@.subrange(from as int, i as int));
    }
    assert(out@ =~= cs@.skip(from as int));
    out
}

fn prefix_chars(cs: &Vec<char>, to: usize) -> (res: Vec<char>)
    requires
        to <= cs@.len(),
    ensures
        res@ == cs@.take(to as int),
{
    let mut out: Vec<char> = Vec::new();
    let mut i: usize = 0;
    while i < to
        invariant
            i <= to <= cs@.len(),
            out@ == cs@.take(i as int),
        decreases to - i,
    {
        out.push(cs[i]);
        i = i + 1;
        assert(out@ =~= cs@.take(i as int));
    }
    out
}

fn find_eq_sign(cs: &Vec<char>) -> (res: Option<usize>)
    ensures
        res matches Some(k) ==> first_eq_sign(cs@) == Some(k as int),
        res is None ==> first_eq_sign(cs@) is None,
        res matches Some(k) ==> k < cs@.len(),
{
    let mut i: usize = 0;
    assert(cs@.skip(0) =~= cs@);
    while i < cs.len()
        invariant
            i <= cs@.len(),
            forall|j: int| 0 <= j < i ==> cs@[j] != '=',
            first_eq_sign(cs@) == (match first_eq_sign(cs@.skip(i as int)) {
                Some(k) => Some(k + i),
                None => None::<int>,
            }),
        decreases cs.len() - i,
    {
        assert(cs@.skip(i as int).skip(1) =~= cs@.skip(i + 1));
        if cs[i] == '=' {
            return Some(i);
        }
        i = i + 1;
    }
    None
}

fn lookup_long(defs: &Vec<OptDef>, name: &Vec<char>) -> (res: Option<usize>)
    ensures
        res matches Some(k) ==> find_long(defs_view(defs@), name@) == Some(k as int),
        res is None ==> find_long(defs_view(defs@), name@) is None,
        res matches Some(k) ==> k < defs@.len(),
{
    let ghost dv = defs_view(defs@);
    let mut i: usize = 0;
    assert(dv.skip(0) =~= dv);
    while i < defs.len()
        invariant
            i <= defs@.len(),
            dv == defs_view(defs@),
            find_long(dv, name@) == (match find_long(dv.skip(i as int), name@) {
                Some(k) => Some(k + i),
                None => None::<int>,
            }),
        decreases defs.len() - i,
    {
        assert(dv.skip(i as int).skip(1) =~= dv.skip(i + 1));
        assert(dv.skip(i as int)[0] == defs@[i as int]@);
        let long = chars_of(defs[i].long);
        if chars_eq(&long, name) {
            return Some(i);
        }
        i = i + 1;
    }
    None
}

fn lookup_short(defs: &Vec<OptDef>, c: char) -> (res: Option<usize>)
    ensures
        res matches Some(k) ==> find_short(defs_view(defs@), c) == Some(k as int),
        res is None ==> find_short(defs_view(defs@), c) is None,
        res matches Some(k) ==> k < defs@.len(),
{
    let ghost dv = defs_view(defs@);
    let mut i: usize = 0;
    assert(dv.skip(0) =~= dv);
    while i < defs.len()
        invariant
            i <= defs@.len(),
            dv == defs_view(defs@),
            find_short(dv, c) == (match find_short(dv.skip(i as int), c) {
                Some(k) => Some(k + i),
                None => None::<int>,
            }),
        decreases defs.len() - i,
    {
        assert(dv.skip(i as int).skip(1) =~= dv.skip(i + 1));
        assert(dv.skip(i as int)[0] == defs@[i as int]@);
        if defs[i].short == Some(c) {
            return Some(i);
        }
        i = i + 1;
    }
    None
}

fn is_option_token(cs: &Vec<char>) -> (res: bool)
    ensures
        res == is_option_like(cs@),
{
    cs.len() >= 2 && cs[0] == '-'
}

/// Scans `toks[from..]` against the options `defs` (see `scan`).
pub fn scan_args(toks: &Vec<String>, from: usize, defs: &Vec<OptDef>) -> (res: Result<Scanned, ArgError>)
    requires
        from <= toks@.len(),
    ensures
        match scan(views_of(toks@).skip(from as int), defs_view(defs@), empty_scan(defs@.len())) {
            Ok(v) => (res matches Ok(s) && s@ == v),
            Err(e) => (res matches Err(err) && err@ == e),
        },
        res matches Ok(s) ==> s.values@.len() == defs@.len(),
{
    let ghost dv = defs_view(defs@);
    let ghost tv = views_of(toks@);
    let mut values: Vec<Option<String>> = Vec::new();
    let mut k: usize = 0;
    while k < defs.len()
        invariant
            k <= defs@.len(),
            values@.len() == k,
            forall|j: int| 0 <= j < k ==> values@[j] is None,
        decreases defs.len() - k,
    {
        values.push(None);
        k = k + 1;
    }
    let mut st = Scanned { positionals: Vec::new(), values, raw: false };
    assert(st@.positionals =~= seq![]);
    assert(st@.values =~= Seq::new(defs@.len() as nat, |_i: int| None::<Seq<char>>));
    let mut i = from;
    while i < toks.len()
        invariant
            from <= i <= toks@.len(),
            dv == defs_view(defs@),
            tv == views_of(toks@),
            st.values@.len() == defs@.len(),
            scan(tv.skip(from as int), dv, empty_scan(defs@.len())) == scan(tv.skip(i as int), dv, st@),
        decreases toks.len() - i,
    {
        let ghost before = st@;
        let ghost toks_i = tv.skip(i as int);
        assert(toks_i[0] == toks@[i as int]@);
        assert(toks_i.skip(1) =~= tv.skip(i + 1));
        let t = chars_of(toks[i].as_str());
        if st.raw || !is_option_token(&t) {
            st.positionals.push(toks[i].clone());
            assert(st@.positionals =~= before.positionals.push(toks_i[0]));
            i = i + 1;
            continue;
        }
        if t.len() == 2 && t[1] == '-' {
            assert(t@ =~= "--"@) by { reveal_strlit("--"); }
            st.raw = true;
            i = i + 1;
            continue;
        }
        proof {
            reveal_strlit("--");
            assert(t@ != "--"@);
        }
        if (t.len() == 2 && t[1] == 'h') || (t.len() == 6 && t[1] == '-' && t[2] == 'h' && t[3] == 'e' && t[4] == 'l' && t[5] == 'p') {
            proof {
                reveal_strlit("-h");
                reveal_strlit("--help");
                if t.len() == 2 { assert(t@ =~= "-h"@); } else { assert(t@ =~= "--help"@); }
            }
            return Err(ArgError::HelpRequested);
        }
        proof {
            reveal_strlit("-h");
            reveal_strlit("--help");
            assert(!is_help_token(t@));
        }
        let idx: usize;
        let inline: Option<Vec<char>>;
        if t[1] == '-' {
            let body = sub_chars(&t, 2);
            let name: Vec<char>;
            match find_eq_sign(&body) {
                Some(eq) => {
                    name = prefix_chars(&body, eq);
                    inline = Some(sub_chars(&body, eq + 1));
                },
                None => {
                    name = body;
                    inline = None;
                },
            }
            match lookup_long(defs, &name) {
                None => { return Err(ArgError::UnexpectedArgument(toks[i].clone())); },
                Some(x) => { idx = x; },
            }
            assert(dv[idx as int] == defs@[idx as int]@);
            if st.values[idx].is_some() {
                assert(before.values[idx as int] is Some);
                assert(t@ == toks_i[0]);
                assert(!before.raw);
                assert(is_option_like(toks_i[0]));
                assert(toks_i[0] != "--"@);
                assert(!is_help_token(toks_i[0]));
                assert(toks_i[0][1] == '-');
                assert(long_parts(toks_i[0]).0 == name@);
                assert(find_long(dv, long_parts(toks_i[0]).0) == Some(idx as int));
                assert(scan(toks_i, dv, before) == Err::<ScanView, ArgErrorView>(ArgErrorView::RepeatedOption(dv[idx as int].long)));
                return Err(ArgError::RepeatedOption(defs[idx].long.to_owned()));
            }
            assert(before.values[idx as int] is None);
            if !defs[idx].takes_value {
                if inline.is_some() {
                    return Err(ArgError::UnexpectedArgument(toks[i].clone()));
                }
                st.values.set(idx, Some(String::new()));
                assert(st@.values =~= before.values.update(idx as int, Some(seq![])));
                i = i + 1;
                continue;
            }
            proof {
                assert(t@ == toks_i[0]);
                if inline is None {
                    assert(scan(toks_i, dv, before) == scan_next_value(toks_i.skip(1), dv, before, idx as int));
                } else {
                    assert(scan(toks_i, dv, before) == scan(toks_i.skip(1), dv, set_value(before, idx as int, inline->0@)));
                }
            }
        } else {
            match lookup_short(defs, t[1]) {
                None => { return Err(ArgError::UnexpectedArgument(toks[i].clone())); },
                Some(x) => { idx = x; },
            }
            assert(dv[idx as int] == defs@[idx as int]@);
            if st.values[idx].is_some() {
                assert(before.values[idx as int] is Some);
                return Err(ArgError::RepeatedOption(defs[idx].long.to_owned()));
            }
            assert(before.values[idx as int] is None);
            if !defs[idx].takes_value {
                if t.len() > 2 {
                    return Err(ArgError::UnexpectedArgument(toks[i].clone()));
                }
                st.values.set(idx, Some(String::new()));
                assert(st@.values =~= before.values.update(idx as int, Some(seq![])));
                i = i + 1;
                continue;
            }
            if t.len() > 2 {
                if t[2] == '=' {
                    inline = Some(sub_chars(&t, 3));
                } else {
                    inline = Some(sub_chars(&t, 2));
                }
            } else {
                inline = None;
            }
            proof {
                assert(t@ == toks_i[0]);
                if inline is None {
                    assert(scan(toks_i, dv, before) == scan_next_value(toks_i.skip(1), dv, before, idx as int));
                } else {
                    assert(scan(toks_i, dv, before) == scan(toks_i.skip(1), dv, set_value(before, idx as int, inline->0@)));
                }
            }
        }
        // the option takes a value
        match inline {
            Some(v) => {
                st.values.set(idx, Some(string_from_chars(&v)));
                assert(st@.values =~= before.values.update(idx as int, Some(v@)));
                i = i + 1;
            },
            None => {
                if i + 1 >= toks.len() {
                    assert(toks_i.skip(1).len() == 0);
                    return Err(ArgError::MissingValue(defs[idx].long.to_owned()));
                }
                let next = chars_of(toks[i + 1].as_str());
                assert(toks_i.skip(1)[0] == toks@[i + 1]@);
                if is_option_token(&next) {
                    return Err(ArgError::MissingValue(defs[idx].long.to_owned()));
                }
                st.values.set(idx, Some(toks[i + 1].clone()));
                assert(st@.values =~= before.values.update(idx as int, Some(tv[i + 1])));
                assert(toks_i.skip(1).skip(1) =~= tv.skip(i + 2));
                i = i + 2;
            },
        }
    }
    assert(tv.skip(i as int).len() == 0);
    Ok(st)
}

} // verus!
