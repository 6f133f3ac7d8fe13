//! The exchange between planning and the system: the facts a plan may need
//! (queries), what the system answers, and the environment known up front.
//!
//! A planning function is called with the answers gathered so far, in the
//! order in which it asked for them; it either finishes or names the next
//! fact it needs. The caller answers that query and calls it again.

use vstd::prelude::*;
use crate::paths::{is_absolute, join_path, join_path_of, path_starts_with, path_starts_with_of};
use crate::text::{append, append_lit, begins_lit, chars_of, equals, slice_of, string_of, trim, trim_of, views};

verus! {

/// A fact about the system that planning needs.
#[derive(Debug)]
pub enum Query {
    /// Whether anything exists at a path (following links).
    Exists(String),
    /// Whether an entry, even a dangling link, is at a path.
    Present(String),
    /// The canonical path of a device argument, as text.
    DevicePath(String),
    /// Whether a path is a block device.
    BlockDevice(String),
    /// The canonical form of a path.
    Canonical(String),
    /// Whether the entry at a path (not following a final link) is a directory.
    Entry(String),
    /// Whether a directory has any entry.
    DirEntries(String),
    /// The result of running a program with arguments.
    Run(String, Vec<String>),
    /// Whether a text is an IP address, and of which family.
    IpAddress(String),
    /// The contents of a text file.
    ReadFile(String),
}

/// The model of a query.
pub enum QueryView {
    Exists(Seq<char>),
    Present(Seq<char>),
    DevicePath(Seq<char>),
    BlockDevice(Seq<char>),
    Canonical(Seq<char>),
    Entry(Seq<char>),
    DirEntries(Seq<char>),
    Run(Seq<char>, Seq<Seq<char>>),
    IpAddress(Seq<char>),
    ReadFile(Seq<char>),
}

impl View for Query {
    type V = QueryView;

    open spec fn view(&self) -> QueryView {
        match self {
            Query::Exists(p) => QueryView::Exists(p@),
            Query::Present(p) => QueryView::Present(p@),
            Query::DevicePath(p) => QueryView::DevicePath(p@),
            Query::BlockDevice(p) => QueryView::BlockDevice(p@),
            Query::Canonical(p) => QueryView::Canonical(p@),
            Query::Entry(p) => QueryView::Entry(p@),
            Query::DirEntries(p) => QueryView::DirEntries(p@),
            Query::Run(p, a) => QueryView::Run(p@, views(a@)),
            Query::IpAddress(t) => QueryView::IpAddress(t@),
            Query::ReadFile(p) => QueryView::ReadFile(p@),
        }
    }
}

/// Where a path leads: the resolution failed (with the reason), or it led to
/// a path that is not valid Unicode (given lossily), or to a path.
#[derive(Debug)]
pub enum Location {
    Failed(String),
    NotUnicode(String),
    Found(String),
}

/// How a program run ended: its exit status as text, and its outputs (lossily decoded).
#[derive(Debug)]
pub struct RunOutput {
    pub success: bool,
    pub status: String,
    pub stdout: String,
    pub stderr: String,
}

/// The answer to a query. `Flag` answers `Exists` and `Present`; `Checked`
/// answers `BlockDevice`, `Entry`, `DirEntries` and `IpAddress` (`true` for
/// IPv4); `Text` answers `DevicePath` and `ReadFile`; `Location` answers
/// `Canonical`; `Ran` answers `Run`. Errors are the system's own texts.
#[derive(Debug)]
pub enum Answer {
    Flag(bool),
    Checked(Result<bool, String>),
    Text(Result<String, String>),
    Location(Location),
    Ran(Result<RunOutput, String>),
}

/// An environment variable that holds a path.
#[derive(Debug)]
pub enum Var {
    Unset,
    NotUnicode(String),
    Value(String),
}

/// What planning knows of its environment from the start: the home
/// directory, the working directory, the preferred editors, the login
/// session, its own process id, and the canonical working and home
/// directories (when they could be resolved).
#[derive(Debug)]
pub struct Environment {
    pub home: Var,
    pub cwd: Location,
    pub visual: Option<String>,
    pub editor: Option<String>,
    pub session: Option<String>,
    pub pid: u32,
    pub real_cwd: Option<String>,
    pub real_home: Option<String>,
}

/// The result of a planning call: finished, or in need of one more fact.
pub enum Outcome<T> {
    Done(Result<T, String>),
    Need(Query),
}

/// The model of an outcome.
pub enum Next<V> {
    Done(Result<V, Seq<char>>),
    Need(QueryView),
}

impl<T: View> View for Outcome<T> {
    type V = Next<T::V>;

    open spec fn view(&self) -> Next<T::V> {
        match self {
            Outcome::Done(Ok(t)) => Next::Done(Ok(t@)),
            Outcome::Done(Err(e)) => Next::Done(Err(e@)),
            Outcome::Need(q) => Next::Need(q@),
        }
    }
}

/// A step of planning that may need a fact: asks for it, fails with a
/// message, or yields a value and the number of answers used so far.
pub enum Stage<V> {
    Ask(QueryView),
    Fail(Seq<char>),
    Got(V, int),
}

/// The executable counterpart of a stage.
pub enum Progress<T> {
    Ask(Query),
    Fail(String),
    Got(T),
}

/// `r` is the executable form of stage `s`, with `k` answers used after it.
pub open spec fn agrees<T: View>(r: Progress<T>, s: Stage<T::V>, k: int) -> bool {
    match (r, s) {
        (Progress::Ask(q), Stage::Ask(qv)) => q@ == qv,
        (Progress::Fail(e), Stage::Fail(ev)) => e@ == ev,
        (Progress::Got(t), Stage::Got(tv, kv)) => t@ == tv && k == kv,
        _ => false,
    }
}

/// The finished outcome for a stage that did not yield.
pub open spec fn stop<A, V>(s: Stage<A>) -> Next<V> {
    match s {
        Stage::Ask(q) => Next::Need(q),
        Stage::Fail(e) => Next::Done(Err(e)),
        Stage::Got(_, _) => Next::Done(Err(Seq::empty())),
    }
}

/// The message for an answer of the wrong kind.
pub open spec fn mismatch() -> Seq<char> {
    "Unexpected answer to a system query"@
}

pub(crate) fn mismatch_text() -> (r: String)
    ensures
        r@ == mismatch(),
{
    string_of(chars_of("Unexpected answer to a system query").as_slice())
}

/// The `k`-th answer, if it has been given.
pub open spec fn answer_at(ans: Seq<Answer>, k: int) -> Option<Answer> {
    if 0 <= k < ans.len() {
        Some(ans[k])
    } else {
        None
    }
}

/// Takes the next answer, if it has been given.
pub(crate) fn take_answer<'a>(answers: &'a Vec<Answer>, k: &mut usize) -> (r: Option<&'a Answer>)
    ensures
        match r {
            Some(a) => *a == answers@[*old(k) as int] && *old(k) < answers@.len() && *final(k)
                == *old(k) + 1,
            None => answer_at(answers@, *old(k) as int) is None && *final(k) == *old(k),
        },
{
    if *k < answers.len() {
        let a = &answers[*k];
        *k = *k + 1;
        Some(a)
    } else {
        None
    }
}

/// A yes/no fact (`Exists`, `Present`).
pub open spec fn flag_stage(q: QueryView, ans: Seq<Answer>, k: int) -> Stage<bool> {
    match answer_at(ans, k) {
        None => Stage::Ask(q),
        Some(Answer::Flag(b)) => Stage::Got(b, k + 1),
        Some(_) => Stage::Fail(mismatch()),
    }
}

/// A yes/no fact that may fail (`BlockDevice`, `Entry`, `DirEntries`, `IpAddress`).
pub open spec fn checked_stage(q: QueryView, ans: Seq<Answer>, k: int) -> Stage<bool> {
    match answer_at(ans, k) {
        None => Stage::Ask(q),
        Some(Answer::Checked(Ok(b))) => Stage::Got(b, k + 1),
        Some(Answer::Checked(Err(e))) => Stage::Fail(e@),
        Some(_) => Stage::Fail(mismatch()),
    }
}

/// A text fact that may fail (`DevicePath`, `ReadFile`).
pub open spec fn text_stage(q: QueryView, ans: Seq<Answer>, k: int) -> Stage<Seq<char>> {
    match answer_at(ans, k) {
        None => Stage::Ask(q),
        Some(Answer::Text(Ok(t))) => Stage::Got(t@, k + 1),
        Some(Answer::Text(Err(e))) => Stage::Fail(e@),
        Some(_) => Stage::Fail(mismatch()),
    }
}

pub(crate) fn ask_flag(q: Query, answers: &Vec<Answer>, k: &mut usize) -> (r: Progress<bool>)
    ensures
        agrees(r, flag_stage(q@, answers@, *old(k) as int), *final(k) as int),
{
    match take_answer(answers, k) {
        None => Progress::Ask(q),
        Some(Answer::Flag(b)) => Progress::Got(*b),
        Some(_) => Progress::Fail(mismatch_text()),
    }
}

pub(crate) fn ask_checked(q: Query, answers: &Vec<Answer>, k: &mut usize) -> (r: Progress<bool>)
    ensures
        agrees(r, checked_stage(q@, answers@, *old(k) as int), *final(k) as int),
{
    match take_answer(answers, k) {
        None => Progress::Ask(q),
        Some(Answer::Checked(Ok(b))) => Progress::Got(*b),
        Some(Answer::Checked(Err(e))) => Progress::Fail(e.clone()),
        Some(_) => Progress::Fail(mismatch_text()),
    }
}

pub(crate) fn ask_text(q: Query, answers: &Vec<Answer>, k: &mut usize) -> (r: Progress<String>)
    ensures
        agrees(r, text_stage(q@, answers@, *old(k) as int), *final(k) as int),
{
    match take_answer(answers, k) {
        None => Progress::Ask(q),
        Some(Answer::Text(Ok(t))) => Progress::Got(t.clone()),
        Some(Answer::Text(Err(e))) => Progress::Fail(e.clone()),
        Some(_) => Progress::Fail(mismatch_text()),
    }
}

/// What a path argument means: empty is refused, `~/` is taken from `HOME`,
/// a relative path from the working directory, and the result must be Unicode.
pub open spec fn resolved(value: Seq<char>, env: Environment) -> Result<Seq<char>, Seq<char>> {
    if value.len() == 0 {
        Err("Empty path"@)
    } else {
        let first: Result<(Seq<char>, bool), Seq<char>> = if value.len() >= 2 && value[0] == '~'
            && value[1] == '/' {
            let rest = value.skip(2);
            match env.home {
                Var::Unset => Err("HOME is not set"@),
                Var::NotUnicode(h) => Ok((join_path(h@, rest), is_absolute(rest))),
                Var::Value(h) => Ok((join_path(h@, rest), true)),
            }
        } else {
            Ok((value, true))
        };
        match first {
            Err(e) => Err(e),
            Ok((p, unicode)) => {
                let full: Result<(Seq<char>, bool), Seq<char>> = if is_absolute(p) {
                    Ok((p, unicode))
                } else {
                    match env.cwd {
                        Location::Failed(e) => Err(e@),
                        Location::NotUnicode(c) => Ok((join_path(c@, p), is_absolute(p))),
                        Location::Found(c) => Ok((join_path(c@, p), unicode)),
                    }
                };
                match full {
                    Err(e) => Err(e),
                    Ok((q, u)) => if u {
                        Ok(q)
                    } else {
                        Err("Path is not UTF-8"@)
                    },
                }
            },
        }
    }
}

/// The absolute path meant by a path argument.
pub fn resolve(value: &[char], env: &Environment) -> (r: Result<Vec<char>, String>)
    ensures
        match r {
            Ok(p) => resolved(value@, *env) == Ok::<Seq<char>, Seq<char>>(p@),
            Err(e) => resolved(value@, *env) == Err::<Seq<char>, Seq<char>>(e@),
        },
{
    if value.len() == 0 {
        return Err(string_of(chars_of("Empty path").as_slice()));
    }
    let (p, unicode) = if value.len() >= 2 && value[0] == '~' && value[1] == '/' {
        let rest = slice_of(value, 2, value.len());
        assert(rest@ =~= value@.skip(2));
        match &env.home {
            Var::Unset => return Err(string_of(chars_of("HOME is not set").as_slice())),
            Var::NotUnicode(h) => {
                let abs = rest.len() > 0 && rest[0] == '/';
                (join_path_of(chars_of(h.as_str()).as_slice(), rest.as_slice()), abs)
            },
            Var::Value(h) => (join_path_of(chars_of(h.as_str()).as_slice(), rest.as_slice()), true),
        }
    } else {
        (slice_of(value, 0, value.len()), true)
    };
    assert(value@.subrange(0, value@.len() as int) =~= value@);
    let (q, u) = if p.len() > 0 && p[0] == '/' {
        (p, unicode)
    } else {
        match &env.cwd {
            Location::Failed(e) => return Err(e.clone()),
            Location::NotUnicode(c) => {
                let abs = p.len() > 0 && p[0] == '/';
                (join_path_of(chars_of(c.as_str()).as_slice(), p.as_slice()), abs)
            },
            Location::Found(c) => (join_path_of(chars_of(c.as_str()).as_slice(), p.as_slice()), unicode),
        }
    };
    if u {
        Ok(q)
    } else {
        Err(string_of(chars_of("Path is not UTF-8").as_slice()))
    }
}

/// What running a program yields, as the platform's command helper reports
/// it: its trimmed output, or why it could not start or failed.
pub open spec fn command_text(program: Seq<char>, ran: Result<RunOutput, String>) -> Result<Seq<char>, Seq<char>> {
    match ran {
        Err(e) => Err("Cannot start "@ + program + ": "@ + e@),
        Ok(o) => if o.success {
            Ok(trim(o.stdout@))
        } else {
            Err(program + ": "@ + o.status@ + ": "@ + trim(o.stderr@))
        },
    }
}

/// The trimmed output of a program run, or why it could not start or failed.
pub fn command_output(program: &str, ran: &Result<RunOutput, String>) -> (r: Result<String, String>)
    ensures
        match r {
            Ok(t) => command_text(program@, *ran) == Ok::<Seq<char>, Seq<char>>(t@),
            Err(e) => command_text(program@, *ran) == Err::<Seq<char>, Seq<char>>(e@),
        },
{
    match ran {
        Err(e) => {
            let mut m: Vec<char> = Vec::new();
            append_lit(&mut m, "Cannot start ");
            append(&mut m, chars_of(program).as_slice());
            append_lit(&mut m, ": ");
            append(&mut m, chars_of(e.as_str()).as_slice());
            Err(string_of(m.as_slice()))
        },
        Ok(o) => if o.success {
            Ok(string_of(trim_of(chars_of(o.stdout.as_str()).as_slice()).as_slice()))
        } else {
            let mut m: Vec<char> = Vec::new();
            append(&mut m, chars_of(program).as_slice());
            append_lit(&mut m, ": ");
            append(&mut m, chars_of(o.status.as_str()).as_slice());
            append_lit(&mut m, ": ");
            append(&mut m, trim_of(chars_of(o.stderr.as_str()).as_slice()).as_slice());
            Err(string_of(m.as_slice()))
        },
    }
}

/// A program run whose trimmed output is wanted.
pub open spec fn output_stage(program: Seq<char>, args: Seq<Seq<char>>, ans: Seq<Answer>, k: int) -> Stage<Seq<char>> {
    match answer_at(ans, k) {
        None => Stage::Ask(QueryView::Run(program, args)),
        Some(Answer::Ran(ran)) => match command_text(program, ran) {
            Ok(t) => Stage::Got(t, k + 1),
            Err(e) => Stage::Fail(e),
        },
        Some(_) => Stage::Fail(mismatch()),
    }
}

pub(crate) fn ask_output(program: &str, args: &[&str], answers: &Vec<Answer>, k: &mut usize) -> (r: Progress<String>)
    ensures
        agrees(r, output_stage(program@, crate::command::strs(args@), answers@, *old(k) as int), *final(k) as int),
{
    match take_answer(answers, k) {
        None => Progress::Ask(Query::Run(string_of(chars_of(program).as_slice()), crate::command::strings(args))),
        Some(Answer::Ran(ran)) => match command_output(program, ran) {
            Ok(t) => Progress::Got(t),
            Err(e) => Progress::Fail(e),
        },
        Some(_) => Progress::Fail(mismatch_text()),
    }
}

/// Where a path leads, as answered for `Canonical`.
pub open spec fn canonical_stage(p: Seq<char>, ans: Seq<Answer>, k: int) -> Stage<Location> {
    match answer_at(ans, k) {
        None => Stage::Ask(QueryView::Canonical(p)),
        Some(Answer::Location(l)) => Stage::Got(l, k + 1),
        Some(_) => Stage::Fail(mismatch()),
    }
}

} // verus!
