//! Planning of the system commands: what each command line will run.

use vstd::prelude::*;
use crate::checks::{
    app_name, app_name_error, is_mac, is_safe, mac, safe, unit, unit_name, unsafe_message,
};
use crate::command::{empty_plan, strings, strs, tool, Plan, PlanView, Step, StepView, step_views, lemma_step_views_push};
use crate::paths::{path_starts_with, path_starts_with_of};
use crate::capabilities::valid_package_name;
use crate::checks::{is_username, username, username_message, process_pattern, process_pattern_of};
use crate::numbers::{all_digits, decimal, decimal_of, parse_u16, parse_u32, parse_u8, u16_error, u32_error, u8_error, unsigned_value};
use crate::probe::{flag_stage, ask_flag, resolved, resolve, stop,
    agrees, ask_checked, ask_output, ask_text, checked_stage, mismatch, mismatch_text, output_stage,
    take_answer, text_stage, answer_at, Answer, Environment, Next, Outcome, Progress, Query,
    QueryView, Stage,
};
use crate::text::{
    append, append_lit, chars_of, equals, lines, lines_of, slice_of, split_once, split_once_of,
    starts_with, begins_lit, string_of, texts, trim, trim_of, views,
};

verus! {

/// The plan made of the given steps.
pub open spec fn steps_plan(steps: Seq<StepView>) -> PlanView {
    PlanView { steps, ..empty_plan() }
}

/// The plan that runs `/usr/bin/<program>` with `args`.
pub open spec fn run1(program: Seq<char>, args: Seq<Seq<char>>) -> PlanView {
    steps_plan(seq![tool(program, args)])
}

/// `p`, to be confirmed before it runs.
pub open spec fn confirmed(p: PlanView) -> PlanView {
    PlanView { confirm: true, ..p }
}

/// `p` with one more note.
pub open spec fn noted(p: PlanView, note: Seq<char>) -> PlanView {
    PlanView { notes: p.notes.push(note), ..p }
}

/// The answer to a command line that no command matches.
pub open spec fn invalid_command() -> Seq<char> {
    "Invalid command or arguments. Run: mono help <command>"@
}

pub(crate) fn invalid_text() -> (r: String)
    ensures
        r@ == invalid_command(),
{
    string_of(chars_of("Invalid command or arguments. Run: mono help <command>").as_slice())
}

/// A finished outcome with an error text.
fn refuse(msg: &str) -> (r: Outcome<Plan>)
    ensures
        r@ == Next::<PlanView>::Done(Err(msg@)),
{
    Outcome::Done(Err(string_of(chars_of(msg).as_slice())))
}

/// The plan that runs `/usr/bin/<program>` with `args`.
fn run1_of(program: &str, args: &[&str]) -> (r: Plan)
    ensures
        r@ == run1(program@, strs(args@)),
{
    let mut p = Plan::default();
    p.add(program, args);
    assert(p@.steps =~= seq![tool(program@, strs(args@))]);
    assert(p@ =~= run1(program@, strs(args@)));
    p
}

/// Whether an argument is the literal `lit`.
fn word(a: &str, lit: &str) -> (r: bool)
    ensures
        r == (a@ == lit@),
{
    equals(chars_of(a).as_slice(), lit)
}

/// The canonical device path a device argument names, when it is a block
/// device under `/dev`.
pub open spec fn device_stage(value: Seq<char>, ans: Seq<Answer>, k: int) -> Stage<Seq<char>> {
    match text_stage(QueryView::DevicePath(value), ans, k) {
        Stage::Ask(q) => Stage::Ask(q),
        Stage::Fail(e) => Stage::Fail("Device: "@ + e),
        Stage::Got(p, k1) => if !path_starts_with(p, "/dev"@) {
            Stage::Fail("Expected a block device under /dev"@)
        } else {
            match checked_stage(QueryView::BlockDevice(p), ans, k1) {
                Stage::Ask(q) => Stage::Ask(q),
                Stage::Fail(e) => Stage::Fail(e),
                Stage::Got(b, k2) => if b {
                    Stage::Got(p, k2)
                } else {
                    Stage::Fail("Expected a block device under /dev"@)
                },
            }
        },
    }
}

/// The canonical device path a device argument names.
pub(crate) fn device(value: &str, answers: &Vec<Answer>, k: &mut usize) -> (r: Progress<String>)
    ensures
        agrees(r, device_stage(value@, answers@, *old(k) as int), *final(k) as int),
{
    let q = Query::DevicePath(string_of(chars_of(value).as_slice()));
    match ask_text(q, answers, k) {
        Progress::Ask(q) => Progress::Ask(q),
        Progress::Fail(e) => {
            let mut m: Vec<char> = Vec::new();
            append_lit(&mut m, "Device: ");
            append(&mut m, chars_of(e.as_str()).as_slice());
            Progress::Fail(string_of(m.as_slice()))
        },
        Progress::Got(p) => {
            let pv = chars_of(p.as_str());
            if !path_starts_with_of(pv.as_slice(), chars_of("/dev").as_slice()) {
                return Progress::Fail(string_of(chars_of("Expected a block device under /dev").as_slice()));
            }
            let q2 = Query::BlockDevice(p.clone());
            match ask_checked(q2, answers, k) {
                Progress::Ask(q) => Progress::Ask(q),
                Progress::Fail(e) => Progress::Fail(e),
                Progress::Got(b) => if b {
                    Progress::Got(p)
                } else {
                    Progress::Fail(string_of(chars_of("Expected a block device under /dev").as_slice()))
                },
            }
        },
    }
}

/// The arguments of the service manager query for a unit's load state.
pub open spec fn load_state_args(u: Seq<char>) -> Seq<Seq<char>> {
    seq!["show"@, "--property=LoadState"@, "--value"@, "--"@, u]
}

/// Whether a name is a loaded systemd service.
pub open spec fn service_stage(name: Seq<char>, ans: Seq<Answer>, k: int) -> Stage<bool> {
    match unit_name(name) {
        Err(e) => Stage::Fail(e),
        Ok(u) => match answer_at(ans, k) {
            None => Stage::Ask(QueryView::Run("/usr/bin/systemctl"@, load_state_args(u))),
            Some(Answer::Ran(Err(e))) => Stage::Fail(e@),
            Some(Answer::Ran(Ok(o))) => Stage::Got(o.success && trim(o.stdout@) == "loaded"@, k + 1),
            Some(_) => Stage::Fail(mismatch()),
        },
    }
}

/// Whether a name is a loaded systemd service.
pub(crate) fn is_service(name: &str, answers: &Vec<Answer>, k: &mut usize) -> (r: Progress<bool>)
    ensures
        agrees(r, service_stage(name@, answers@, *old(k) as int), *final(k) as int),
{
    let u = match unit(chars_of(name).as_slice()) {
        Ok(u) => u,
        Err(e) => return Progress::Fail(e),
    };
    let us = string_of(u.as_slice());
    match take_answer(answers, k) {
        None => {
            let arr = ["show", "--property=LoadState", "--value", "--", us.as_str()];
            let args = strings(&arr);
            assert(strs(arr@) =~= load_state_args(u@));
            Progress::Ask(Query::Run(string_of(chars_of("/usr/bin/systemctl").as_slice()), args))
        },
        Some(Answer::Ran(Err(e))) => Progress::Fail(e.clone()),
        Some(Answer::Ran(Ok(o))) => {
            let t = trim_of(chars_of(o.stdout.as_str()).as_slice());
            Progress::Got(o.success && equals(t.as_slice(), "loaded"))
        },
        Some(_) => Progress::Fail(mismatch_text()),
    }
}


/// Two or more answers.
pub open spec fn done<V>(r: Result<V, Seq<char>>) -> Next<V> {
    Next::Done(r)
}

/// `status network` shows addresses; `status <service>` the service status.
pub open spec fn status_plan(a: Seq<Seq<char>>) -> Next<PlanView> {
    if a.len() == 2 && a[1] == "network"@ {
        done(Ok(run1("ip"@, seq!["-brief"@, "address"@])))
    } else if a.len() == 2 {
        match unit_name(a[1]) {
            Err(e) => done(Err(e)),
            Ok(u) => done(Ok(run1("systemctl"@, seq!["--no-pager"@, "status"@, "--"@, u]))),
        }
    } else {
        done(Err(invalid_command()))
    }
}

fn plan_status(a: &[&str]) -> (r: Outcome<Plan>)
    requires
        a@.len() > 0,
    ensures
        r@ == status_plan(strs(a@)),
{
    if a.len() == 2 && word(a[1], "network") {
        let arr = ["-brief", "address"];
        assert(strs(arr@) =~= seq!["-brief"@, "address"@]);
        return Outcome::Done(Ok(run1_of("ip", &arr)));
    }
    if a.len() == 2 {
        let u = match unit(chars_of(a[1]).as_slice()) {
            Ok(u) => string_of(u.as_slice()),
            Err(e) => return Outcome::Done(Err(e)),
        };
        let arr = ["--no-pager", "status", "--", u.as_str()];
        assert(strs(arr@) =~= seq!["--no-pager"@, "status"@, "--"@, u@]);
        return Outcome::Done(Ok(run1_of("systemctl", &arr)));
    }
    Outcome::Done(Err(invalid_text()))
}

/// `info <value>`: a block device is listed, an existing path (or one with a
/// `/`) is shown with `stat`, anything else is looked up as a package.
pub open spec fn info_plan(a: Seq<Seq<char>>, env: Environment, ans: Seq<Answer>) -> Next<PlanView> {
    if a.len() != 2 {
        done(Err(invalid_command()))
    } else {
        let v = a[1];
        match resolved(v, env) {
            Err(e) => done(Err(e)),
            Ok(p) => match flag_stage(QueryView::Exists(p), ans, 0) {
                Stage::Got(found, k1) => if found || v.contains('/') {
                    if starts_with(v, "/dev/"@) {
                        match device_stage(v, ans, k1) {
                            Stage::Got(d, _) => done(Ok(run1("lsblk"@, seq!["-O"@, "--"@, d]))),
                            s => stop(s),
                        }
                    } else {
                        done(Ok(run1("stat"@, seq!["--"@, p])))
                    }
                } else if valid_package_name(v) {
                    done(Ok(run1("pacman"@, seq!["-Si"@, "--"@, v])))
                } else {
                    done(Err("Invalid package name: "@ + v))
                },
                s => stop(s),
            },
        }
    }
}

/// The progress of a step that did not yield, as a finished outcome.
fn halt<T>(r: Progress<T>) -> (o: Outcome<Plan>)
    requires
        !(r is Got),
    ensures
        match r {
            Progress::Ask(q) => o@ == Next::<PlanView>::Need(q@),
            Progress::Fail(e) => o@ == Next::<PlanView>::Done(Err(e@)),
            _ => true,
        },
{
    match r {
        Progress::Ask(q) => Outcome::Need(q),
        Progress::Fail(e) => Outcome::Done(Err(e)),
        Progress::Got(_) => Outcome::Done(Err(invalid_text())),
    }
}

/// A path argument resolved, as text.
fn resolve_arg(v: &str, env: &Environment) -> (r: Result<String, String>)
    ensures
        match r {
            Ok(p) => resolved(v@, *env) == Ok::<Seq<char>, Seq<char>>(p@),
            Err(e) => resolved(v@, *env) == Err::<Seq<char>, Seq<char>>(e@),
        },
{
    match resolve(chars_of(v).as_slice(), env) {
        Ok(p) => Ok(string_of(p.as_slice())),
        Err(e) => Err(e),
    }
}

fn plan_info(a: &[&str], env: &Environment, answers: &Vec<Answer>) -> (r: Outcome<Plan>)
    requires
        a@.len() > 0,
    ensures
        r@ == info_plan(strs(a@), *env, answers@),
{
    if a.len() != 2 {
        return Outcome::Done(Err(invalid_text()));
    }
    let v = a[1];
    let vc = chars_of(v);
    let p = match resolve_arg(v, env) {
        Ok(p) => p,
        Err(e) => return Outcome::Done(Err(e)),
    };
    let mut k: usize = 0;
    let found = match ask_flag(Query::Exists(p.clone()), answers, &mut k) {
        Progress::Got(b) => b,
        r => return halt(r),
    };
    if found || crate::text::has_char(vc.as_slice(), '/') {
        if begins_lit(vc.as_slice(), "/dev/") {
            let d = match device(v, answers, &mut k) {
                Progress::Got(d) => d,
                r => return halt(r),
            };
            let arr = ["-O", "--", d.as_str()];
            assert(strs(arr@) =~= seq!["-O"@, "--"@, d@]);
            Outcome::Done(Ok(run1_of("lsblk", &arr)))
        } else {
            let arr = ["--", p.as_str()];
            assert(strs(arr@) =~= seq!["--"@, p@]);
            Outcome::Done(Ok(run1_of("stat", &arr)))
        }
    } else {
        match crate::capabilities::PackageName::new(v) {
            Ok(_) => {
                let arr = ["-Si", "--", v];
                assert(strs(arr@) =~= seq!["-Si"@, "--"@, v@]);
                Outcome::Done(Ok(run1_of("pacman", &arr)))
            },
            Err(e) => Outcome::Done(Err(e)),
        }
    }
}


/// The plan made of one step.
fn single(step: Step) -> (r: Plan)
    ensures
        r@ == steps_plan(seq![step@]),
{
    let mut p = Plan::default();
    proof {
        lemma_step_views_push(p.steps@, step);
    }
    p.steps.push(step);
    assert(p@ =~= steps_plan(seq![step@]));
    p
}

/// One string with the given text.
fn one(t: &str) -> (r: Vec<String>)
    ensures
        views(r@) == seq![t@],
{
    let arr = [t];
    let r = strings(&arr);
    assert(strs(arr@) =~= seq![t@]);
    r
}

/// The step that creates a new empty file.
pub open spec fn create_file_step(p: Seq<char>) -> StepView {
    StepView { program: "@create-file"@, args: seq![p], detached: false }
}

/// `create file|dir|user <name>`.
pub open spec fn create_plan(a: Seq<Seq<char>>, env: Environment, ans: Seq<Answer>) -> Next<PlanView> {
    if a.len() == 3 && a[1] == "file"@ {
        match resolved(a[2], env) {
            Err(e) => done(Err(e)),
            Ok(p) => match flag_stage(QueryView::Present(p), ans, 0) {
                Stage::Got(taken, _) => if taken {
                    done(Err("Target already exists"@))
                } else {
                    done(Ok(steps_plan(seq![create_file_step(p)])))
                },
                s => stop(s),
            },
        }
    } else if a.len() == 3 && a[1] == "dir"@ {
        match resolved(a[2], env) {
            Err(e) => done(Err(e)),
            Ok(p) => done(Ok(run1("mkdir"@, seq!["--"@, p]))),
        }
    } else if a.len() == 3 && a[1] == "user"@ {
        if is_username(a[2]) {
            done(
                Ok(
                    noted(
                        confirmed(run1("useradd"@, seq!["-m"@, "--"@, a[2]])),
                        "Creates a user with a locked password. Set it separately with passwd <user>."@,
                    ),
                ),
            )
        } else {
            done(Err(username_message()))
        }
    } else {
        done(Err(invalid_command()))
    }
}

fn plan_create(a: &[&str], env: &Environment, answers: &Vec<Answer>) -> (r: Outcome<Plan>)
    requires
        a@.len() > 0,
    ensures
        r@ == create_plan(strs(a@), *env, answers@),
{
    if a.len() == 3 && word(a[1], "file") {
        let p = match resolve_arg(a[2], env) {
            Ok(p) => p,
            Err(e) => return Outcome::Done(Err(e)),
        };
        let mut k: usize = 0;
        let taken = match ask_flag(Query::Present(p.clone()), answers, &mut k) {
            Progress::Got(b) => b,
            r => return halt(r),
        };
        if taken {
            return refuse("Target already exists");
        }
        let step = Step {
            program: string_of(chars_of("@create-file").as_slice()),
            args: one(p.as_str()),
            detached: false,
        };
        assert(step@ =~= create_file_step(p@));
        return Outcome::Done(Ok(single(step)));
    }
    if a.len() == 3 && word(a[1], "dir") {
        let p = match resolve_arg(a[2], env) {
            Ok(p) => p,
            Err(e) => return Outcome::Done(Err(e)),
        };
        let arr = ["--", p.as_str()];
        assert(strs(arr@) =~= seq!["--"@, p@]);
        return Outcome::Done(Ok(run1_of("mkdir", &arr)));
    }
    if a.len() == 3 && word(a[1], "user") {
        if let Err(e) = username(chars_of(a[2]).as_slice()) {
            return Outcome::Done(Err(e));
        }
        let arr = ["-m", "--", a[2]];
        assert(strs(arr@) =~= seq!["-m"@, "--"@, a@[2]@]);
        let mut p = run1_of("useradd", &arr);
        p.confirm = true;
        p.note("Creates a user with a locked password. Set it separately with passwd <user>.");
        return Outcome::Done(Ok(p));
    }
    Outcome::Done(Err(invalid_text()))
}

/// `copy|move <from> <to>`: copy keeps attributes; neither overwrites without asking.
pub open spec fn transfer_plan(a: Seq<Seq<char>>, env: Environment) -> Next<PlanView> {
    if a.len() != 3 {
        done(Err(invalid_command()))
    } else {
        match resolved(a[1], env) {
            Err(e) => done(Err(e)),
            Ok(from) => match resolved(a[2], env) {
                Err(e) => done(Err(e)),
                Ok(to) => if a[0] == "copy"@ {
                    done(Ok(run1("cp"@, seq!["-a"@, "-i"@, "--"@, from, to])))
                } else {
                    done(Ok(run1("mv"@, seq!["-i"@, "--"@, from, to])))
                },
            },
        }
    }
}

fn plan_transfer(a: &[&str], env: &Environment) -> (r: Outcome<Plan>)
    requires
        a@.len() > 0,
    ensures
        r@ == transfer_plan(strs(a@), *env),
{
    if a.len() != 3 {
        return Outcome::Done(Err(invalid_text()));
    }
    let from = match resolve_arg(a[1], env) {
        Ok(p) => p,
        Err(e) => return Outcome::Done(Err(e)),
    };
    let to = match resolve_arg(a[2], env) {
        Ok(p) => p,
        Err(e) => return Outcome::Done(Err(e)),
    };
    if word(a[0], "copy") {
        let arr = ["-a", "-i", "--", from.as_str(), to.as_str()];
        assert(strs(arr@) =~= seq!["-a"@, "-i"@, "--"@, from@, to@]);
        Outcome::Done(Ok(run1_of("cp", &arr)))
    } else {
        let arr = ["-i", "--", from.as_str(), to.as_str()];
        assert(strs(arr@) =~= seq!["-i"@, "--"@, from@, to@]);
        Outcome::Done(Ok(run1_of("mv", &arr)))
    }
}

/// `find <pattern> [<root>]`: search by name from the root (default: here).
pub open spec fn find_plan(a: Seq<Seq<char>>, env: Environment) -> Next<PlanView> {
    if a.len() == 2 || a.len() == 3 {
        let root = if a.len() == 2 {
            "."@
        } else {
            a[2]
        };
        match resolved(root, env) {
            Err(e) => done(Err(e)),
            Ok(r) => done(Ok(run1("find"@, seq![r, "-name"@, a[1], "-print"@]))),
        }
    } else {
        done(Err(invalid_command()))
    }
}

fn plan_find(a: &[&str], env: &Environment) -> (r: Outcome<Plan>)
    requires
        a@.len() > 0,
    ensures
        r@ == find_plan(strs(a@), *env),
{
    if a.len() != 2 && a.len() != 3 {
        return Outcome::Done(Err(invalid_text()));
    }
    let root = if a.len() == 2 {
        "."
    } else {
        a[2]
    };
    let r = match resolve_arg(root, env) {
        Ok(p) => p,
        Err(e) => return Outcome::Done(Err(e)),
    };
    let arr = [r.as_str(), "-name", a[1], "-print"];
    assert(strs(arr@) =~= seq![r@, "-name"@, a@[1]@, "-print"@]);
    Outcome::Done(Ok(run1_of("find", &arr)))
}

/// `read <name>` shows a file; `permissions <name>` and `owner <name>` show
/// its mode and owner.
pub open spec fn show_plan(a: Seq<Seq<char>>, env: Environment) -> Next<PlanView> {
    if a.len() != 2 {
        done(Err(invalid_command()))
    } else {
        match resolved(a[1], env) {
            Err(e) => done(Err(e)),
            Ok(p) => if a[0] == "read"@ {
                done(Ok(run1("cat"@, seq!["--"@, p])))
            } else if a[0] == "permissions"@ {
                done(Ok(run1("stat"@, seq!["-c"@, "%A %a %n"@, "--"@, p])))
            } else {
                done(Ok(run1("stat"@, seq!["-c"@, "%U:%G (%u:%g) %n"@, "--"@, p])))
            },
        }
    }
}

fn plan_show(a: &[&str], env: &Environment) -> (r: Outcome<Plan>)
    requires
        a@.len() > 0,
    ensures
        r@ == show_plan(strs(a@), *env),
{
    if a.len() != 2 {
        return Outcome::Done(Err(invalid_text()));
    }
    let p = match resolve_arg(a[1], env) {
        Ok(p) => p,
        Err(e) => return Outcome::Done(Err(e)),
    };
    if word(a[0], "read") {
        let arr = ["--", p.as_str()];
        assert(strs(arr@) =~= seq!["--"@, p@]);
        Outcome::Done(Ok(run1_of("cat", &arr)))
    } else if word(a[0], "permissions") {
        let arr = ["-c", "%A %a %n", "--", p.as_str()];
        assert(strs(arr@) =~= seq!["-c"@, "%A %a %n"@, "--"@, p@]);
        Outcome::Done(Ok(run1_of("stat", &arr)))
    } else {
        let arr = ["-c", "%U:%G (%u:%g) %n", "--", p.as_str()];
        assert(strs(arr@) =~= seq!["-c"@, "%U:%G (%u:%g) %n"@, "--"@, p@]);
        Outcome::Done(Ok(run1_of("stat", &arr)))
    }
}

/// The editor to use: `VISUAL`, else `EDITOR`, else `micro`.
pub open spec fn editor_of(env: Environment) -> Seq<char> {
    match env.visual {
        Some(v) => v@,
        None => match env.editor {
            Some(e) => e@,
            None => "micro"@,
        },
    }
}

/// `edit <name>`: the editor must be one word; a bare name is looked up in `/usr/bin`.
pub open spec fn edit_plan(a: Seq<Seq<char>>, env: Environment) -> Next<PlanView> {
    let editor = editor_of(env);
    if a.len() != 2 {
        done(Err(invalid_command()))
    } else if crate::text::words(editor).len() != 1 {
        done(Err("EDITOR/VISUAL must be one executable path without arguments"@))
    } else {
        match resolved(a[1], env) {
            Err(e) => done(Err(e)),
            Ok(p) => done(
                Ok(
                    steps_plan(
                        seq![
                            StepView {
                                program: if editor.contains('/') {
                                    editor
                                } else {
                                    "/usr/bin/"@ + editor
                                },
                                args: seq![p],
                                detached: false,
                            },
                        ],
                    ),
                ),
            ),
        }
    }
}

fn plan_edit(a: &[&str], env: &Environment) -> (r: Outcome<Plan>)
    requires
        a@.len() > 0,
    ensures
        r@ == edit_plan(strs(a@), *env),
{
    if a.len() != 2 {
        return Outcome::Done(Err(invalid_text()));
    }
    let editor: Vec<char> = match &env.visual {
        Some(v) => chars_of(v.as_str()),
        None => match &env.editor {
            Some(e) => chars_of(e.as_str()),
            None => chars_of("micro"),
        },
    };
    if crate::text::words_of(editor.as_slice()).len() != 1 {
        return refuse("EDITOR/VISUAL must be one executable path without arguments");
    }
    let p = match resolve_arg(a[1], env) {
        Ok(p) => p,
        Err(e) => return Outcome::Done(Err(e)),
    };
    let mut program: Vec<char> = Vec::new();
    if !crate::text::has_char(editor.as_slice(), '/') {
        append_lit(&mut program, "/usr/bin/");
    }
    append(&mut program, editor.as_slice());
    let step = Step { program: string_of(program.as_slice()), args: one(p.as_str()), detached: false };
    proof {
        if editor@.contains('/') {
            assert(program@ =~= editor@);
        }
    }
    assert(step@ =~= (StepView {
        program: if editor_of(*env).contains('/') {
            editor_of(*env)
        } else {
            "/usr/bin/"@ + editor_of(*env)
        },
        args: seq![p@],
        detached: false,
    }));
    Outcome::Done(Ok(single(step)))
}

/// The step that starts an application in the background.
pub open spec fn launch_step(app: Seq<char>) -> StepView {
    StepView { program: "/usr/bin/"@ + app, args: Seq::empty(), detached: true }
}

/// `p` with a step that starts the application `app`, if it is a valid name.
pub open spec fn launched(p: PlanView, app: Seq<char>) -> Result<PlanView, Seq<char>> {
    match app_name_error(app) {
        Some(e) => Err(e),
        None => Ok(PlanView { steps: p.steps.push(launch_step(app)), ..p }),
    }
}

/// Adds a step that starts the application `app` in the background.
fn launch(p: &mut Plan, app: &str) -> (r: Result<(), String>)
    ensures
        match launched(old(p)@, app@) {
            Ok(q) => r is Ok && final(p)@ == q,
            Err(e) => r matches Err(m) && m@ == e && final(p)@ == old(p)@,
        },
{
    app_name(chars_of(app).as_slice())?;
    let mut program: Vec<char> = Vec::new();
    append_lit(&mut program, "/usr/bin/");
    append(&mut program, chars_of(app).as_slice());
    let step = Step { program: string_of(program.as_slice()), args: Vec::new(), detached: true };
    assert(step@ =~= launch_step(app@));
    proof {
        lemma_step_views_push(p.steps@, step);
    }
    p.steps.push(step);
    assert(p@ =~= (PlanView { steps: old(p)@.steps.push(launch_step(app@)), ..old(p)@ }));
    Ok(())
}

/// A launch turned into a finished outcome.
pub open spec fn launch_outcome(p: PlanView, app: Seq<char>) -> Next<PlanView> {
    match launched(p, app) {
        Ok(q) => done(Ok(q)),
        Err(e) => done(Err(e)),
    }
}

/// `open <value>`: a URL, an existing path or one with a `/` is opened with
/// the desktop's handler; anything else is started as an application.
pub open spec fn open_plan(a: Seq<Seq<char>>, env: Environment, ans: Seq<Answer>) -> Next<PlanView> {
    if a.len() != 2 {
        done(Err(invalid_command()))
    } else {
        let v = a[1];
        if !is_safe(v) {
            done(Err(unsafe_message()))
        } else {
            match resolved(v, env) {
                Err(e) => done(Err(e)),
                Ok(p) => match flag_stage(QueryView::Exists(p), ans, 0) {
                    Stage::Got(found, _) => {
                        let url = crate::text::contains_seq(v, "://"@);
                        if found || v.contains('/') || url {
                            done(Ok(run1("xdg-open"@, seq![if url { v } else { p }])))
                        } else {
                            launch_outcome(empty_plan(), v)
                        }
                    },
                    s => stop(s),
                },
            }
        }
    }
}

fn plan_open(a: &[&str], env: &Environment, answers: &Vec<Answer>) -> (r: Outcome<Plan>)
    requires
        a@.len() > 0,
    ensures
        r@ == open_plan(strs(a@), *env, answers@),
{
    if a.len() != 2 {
        return Outcome::Done(Err(invalid_text()));
    }
    let v = a[1];
    let vc = chars_of(v);
    if let Err(e) = safe(vc.as_slice()) {
        return Outcome::Done(Err(e));
    }
    let p = match resolve_arg(v, env) {
        Ok(p) => p,
        Err(e) => return Outcome::Done(Err(e)),
    };
    let mut k: usize = 0;
    let found = match ask_flag(Query::Exists(p.clone()), answers, &mut k) {
        Progress::Got(b) => b,
        r => return halt(r),
    };
    let url = crate::text::occurs_lit(vc.as_slice(), "://");
    if found || crate::text::has_char(vc.as_slice(), '/') || url {
        let target = if url {
            string_of(vc.as_slice())
        } else {
            p
        };
        let arr = [target.as_str()];
        assert(strs(arr@) =~= seq![target@]);
        Outcome::Done(Ok(run1_of("xdg-open", &arr)))
    } else {
        let mut plan = Plan::default();
        match launch(&mut plan, v) {
            Ok(()) => Outcome::Done(Ok(plan)),
            Err(e) => Outcome::Done(Err(e)),
        }
    }
}

/// An octal digit.
pub open spec fn is_octal(c: char) -> bool {
    '0' <= c && c <= '7'
}

/// A mode for `chmod`: `u+x`, or three or four octal digits.
pub open spec fn valid_mode(m: Seq<char>) -> bool {
    m == "u+x"@ || (3 <= m.len() <= 4 && forall|i: int| 0 <= i < m.len() ==> is_octal(#[trigger] m[i]))
}

/// `permissions <name> <mode>`: `executable` means `u+x`.
pub open spec fn chmod_plan(a: Seq<Seq<char>>, env: Environment) -> Next<PlanView> {
    let mode = if a[2] == "executable"@ {
        "u+x"@
    } else {
        a[2]
    };
    if !valid_mode(mode) {
        done(Err("Mode must be executable or 3/4 octal digits"@))
    } else {
        match resolved(a[1], env) {
            Err(e) => done(Err(e)),
            Ok(p) => done(Ok(confirmed(run1("chmod"@, seq![mode, "--"@, p])))),
        }
    }
}

fn octal_digits(m: &[char]) -> (r: bool)
    ensures
        r == forall|i: int| 0 <= i < m@.len() ==> is_octal(#[trigger] m@[i]),
{
    let mut i: usize = 0;
    while i < m.len()
        invariant
            i <= m@.len(),
            forall|j: int| 0 <= j < i ==> is_octal(#[trigger] m@[j]),
        decreases m.len() - i,
    {
        if !('0' <= m[i] && m[i] <= '7') {
            return false;
        }
        i = i + 1;
    }
    true
}

fn plan_chmod(a: &[&str], env: &Environment) -> (r: Outcome<Plan>)
    requires
        a@.len() == 3,
    ensures
        r@ == chmod_plan(strs(a@), *env),
{
    let mode: &str = if word(a[2], "executable") {
        "u+x"
    } else {
        a[2]
    };
    let mc = chars_of(mode);
    let ok = equals(mc.as_slice(), "u+x") || (mc.len() >= 3 && mc.len() <= 4 && octal_digits(mc.as_slice()));
    if !ok {
        return refuse("Mode must be executable or 3/4 octal digits");
    }
    let p = match resolve_arg(a[1], env) {
        Ok(p) => p,
        Err(e) => return Outcome::Done(Err(e)),
    };
    let arr = [mode, "--", p.as_str()];
    assert(strs(arr@) =~= seq![mode@, "--"@, p@]);
    let mut plan = run1_of("chmod", &arr);
    plan.confirm = true;
    assert(plan@ =~= confirmed(run1("chmod"@, seq![mode@, "--"@, p@])));
    Outcome::Done(Ok(plan))
}

/// `owner <name> <owner>`: change the owning user.
pub open spec fn chown_plan(a: Seq<Seq<char>>, env: Environment) -> Next<PlanView> {
    if !is_username(a[2]) {
        done(Err(username_message()))
    } else {
        match resolved(a[1], env) {
            Err(e) => done(Err(e)),
            Ok(p) => done(Ok(confirmed(run1("chown"@, seq![a[2], "--"@, p])))),
        }
    }
}

fn plan_chown(a: &[&str], env: &Environment) -> (r: Outcome<Plan>)
    requires
        a@.len() == 3,
    ensures
        r@ == chown_plan(strs(a@), *env),
{
    if let Err(e) = username(chars_of(a[2]).as_slice()) {
        return Outcome::Done(Err(e));
    }
    let p = match resolve_arg(a[1], env) {
        Ok(p) => p,
        Err(e) => return Outcome::Done(Err(e)),
    };
    let arr = [a[2], "--", p.as_str()];
    assert(strs(arr@) =~= seq![a@[2]@, "--"@, p@]);
    let mut plan = run1_of("chown", &arr);
    plan.confirm = true;
    assert(plan@ =~= confirmed(run1("chown"@, seq![a@[2]@, "--"@, p@])));
    Outcome::Done(Ok(plan))
}

/// `usage` shows memory and the largest processes; `usage <name>` the disk
/// use of an existing path, or the processes with that name.
pub open spec fn usage_plan(a: Seq<Seq<char>>, env: Environment, ans: Seq<Answer>) -> Next<PlanView> {
    if a.len() == 1 {
        done(
            Ok(
                steps_plan(
                    seq![
                        tool("free"@, seq!["-h"@]),
                        tool("ps"@, seq!["-eo"@, "pid,comm,%cpu,%mem,rss"@, "--sort=-rss"@]),
                    ],
                ),
            ),
        )
    } else if a.len() == 2 {
        match resolved(a[1], env) {
            Err(e) => done(Err(e)),
            Ok(p) => match flag_stage(QueryView::Exists(p), ans, 0) {
                Stage::Got(found, _) => if found {
                    done(Ok(run1("df"@, seq!["-h"@, "--"@, p])))
                } else if !is_safe(a[1]) {
                    done(Err(unsafe_message()))
                } else {
                    done(Ok(run1("ps"@, seq!["-C"@, a[1], "-o"@, "pid,comm,%cpu,%mem,rss"@])))
                },
                s => stop(s),
            },
        }
    } else {
        done(Err(invalid_command()))
    }
}

fn plan_usage(a: &[&str], env: &Environment, answers: &Vec<Answer>) -> (r: Outcome<Plan>)
    requires
        a@.len() > 0,
    ensures
        r@ == usage_plan(strs(a@), *env, answers@),
{
    if a.len() == 1 {
        let mut p = Plan::default();
        let a1 = ["-h"];
        let a2 = ["-eo", "pid,comm,%cpu,%mem,rss", "--sort=-rss"];
        p.add("free", &a1);
        p.add("ps", &a2);
        assert(strs(a1@) =~= seq!["-h"@]);
        assert(strs(a2@) =~= seq!["-eo"@, "pid,comm,%cpu,%mem,rss"@, "--sort=-rss"@]);
        assert(p@ =~= steps_plan(
            seq![
                tool("free"@, seq!["-h"@]),
                tool("ps"@, seq!["-eo"@, "pid,comm,%cpu,%mem,rss"@, "--sort=-rss"@]),
            ],
        ));
        return Outcome::Done(Ok(p));
    }
    if a.len() != 2 {
        return Outcome::Done(Err(invalid_text()));
    }
    let p = match resolve_arg(a[1], env) {
        Ok(p) => p,
        Err(e) => return Outcome::Done(Err(e)),
    };
    let mut k: usize = 0;
    let found = match ask_flag(Query::Exists(p.clone()), answers, &mut k) {
        Progress::Got(b) => b,
        r => return halt(r),
    };
    if found {
        let arr = ["-h", "--", p.as_str()];
        assert(strs(arr@) =~= seq!["-h"@, "--"@, p@]);
        return Outcome::Done(Ok(run1_of("df", &arr)));
    }
    if let Err(e) = safe(chars_of(a[1]).as_slice()) {
        return Outcome::Done(Err(e));
    }
    let arr = ["-C", a[1], "-o", "pid,comm,%cpu,%mem,rss"];
    assert(strs(arr@) =~= seq!["-C"@, a@[1]@, "-o"@, "pid,comm,%cpu,%mem,rss"@]);
    Outcome::Done(Ok(run1_of("ps", &arr)))
}


/// `search <query>`: the query stays one argument after `--`.
pub open spec fn search_plan(a: Seq<Seq<char>>) -> Next<PlanView> {
    if a.len() == 2 {
        done(Ok(run1("pacman"@, seq!["-Ss"@, "--"@, a[1]])))
    } else {
        done(Err(invalid_command()))
    }
}

fn plan_search(a: &[&str]) -> (r: Outcome<Plan>)
    requires
        a@.len() > 0,
    ensures
        r@ == search_plan(strs(a@)),
{
    if a.len() != 2 {
        return Outcome::Done(Err(invalid_text()));
    }
    let arr = ["-Ss", "--", a[1]];
    assert(strs(arr@) =~= seq!["-Ss"@, "--"@, a@[1]@]);
    Outcome::Done(Ok(run1_of("pacman", &arr)))
}

/// `install|uninstall <package>`; `update [<package>]` always upgrades the
/// whole system (Arch does not support partial upgrades).
pub open spec fn package_plan(a: Seq<Seq<char>>) -> Next<PlanView> {
    if a[0] == "update"@ && a.len() == 1 {
        done(Ok(run1("pacman"@, seq!["-Syu"@])))
    } else if a.len() != 2 {
        done(Err(invalid_command()))
    } else if !valid_package_name(a[1]) {
        done(Err("Invalid package name: "@ + a[1]))
    } else if a[0] == "install"@ {
        done(Ok(run1("pacman"@, seq!["-S"@, "--needed"@, "--"@, a[1]])))
    } else if a[0] == "uninstall"@ {
        done(Ok(run1("pacman"@, seq!["-R"@, "--"@, a[1]])))
    } else {
        done(
            Ok(
                noted(
                    run1("pacman"@, seq!["-Syu"@, "--"@, a[1]]),
                    "Arch: full system upgrade plus this package; partial upgrades are not performed."@,
                ),
            ),
        )
    }
}

fn plan_package(a: &[&str]) -> (r: Outcome<Plan>)
    requires
        a@.len() > 0,
    ensures
        r@ == package_plan(strs(a@)),
{
    if word(a[0], "update") && a.len() == 1 {
        let arr = ["-Syu"];
        assert(strs(arr@) =~= seq!["-Syu"@]);
        return Outcome::Done(Ok(run1_of("pacman", &arr)));
    }
    if a.len() != 2 {
        return Outcome::Done(Err(invalid_text()));
    }
    if let Err(e) = crate::capabilities::PackageName::new(a[1]) {
        return Outcome::Done(Err(e));
    }
    if word(a[0], "install") {
        let arr = ["-S", "--needed", "--", a[1]];
        assert(strs(arr@) =~= seq!["-S"@, "--needed"@, "--"@, a@[1]@]);
        Outcome::Done(Ok(run1_of("pacman", &arr)))
    } else if word(a[0], "uninstall") {
        let arr = ["-R", "--", a[1]];
        assert(strs(arr@) =~= seq!["-R"@, "--"@, a@[1]@]);
        Outcome::Done(Ok(run1_of("pacman", &arr)))
    } else {
        let arr = ["-Syu", "--", a[1]];
        assert(strs(arr@) =~= seq!["-Syu"@, "--"@, a@[1]@]);
        let mut p = run1_of("pacman", &arr);
        p.note("Arch: full system upgrade plus this package; partial upgrades are not performed.");
        Outcome::Done(Ok(p))
    }
}

/// `clean [packages]`: clean the package cache, pacman asks for confirmation.
pub open spec fn clean_plan(a: Seq<Seq<char>>) -> Next<PlanView> {
    if a.len() == 1 || (a.len() == 2 && a[1] == "packages"@) {
        done(
            Ok(
                noted(
                    run1("pacman"@, seq!["-Sc"@]),
                    "Clean package cache using pacman's interactive confirmation."@,
                ),
            ),
        )
    } else {
        done(Err(invalid_command()))
    }
}

fn plan_clean(a: &[&str]) -> (r: Outcome<Plan>)
    requires
        a@.len() > 0,
    ensures
        r@ == clean_plan(strs(a@)),
{
    if a.len() == 1 || (a.len() == 2 && word(a[1], "packages")) {
        let arr = ["-Sc"];
        assert(strs(arr@) =~= seq!["-Sc"@]);
        let mut p = run1_of("pacman", &arr);
        p.note("Clean package cache using pacman's interactive confirmation.");
        Outcome::Done(Ok(p))
    } else {
        Outcome::Done(Err(invalid_text()))
    }
}

/// The listing of block devices.
pub open spec fn disks_listing() -> PlanView {
    run1("lsblk"@, seq!["-o"@, "NAME,TYPE,SIZE,FSTYPE,LABEL,MOUNTPOINTS"@])
}

fn disks_of() -> (r: Plan)
    ensures
        r@ == disks_listing(),
{
    let arr = ["-o", "NAME,TYPE,SIZE,FSTYPE,LABEL,MOUNTPOINTS"];
    assert(strs(arr@) =~= seq!["-o"@, "NAME,TYPE,SIZE,FSTYPE,LABEL,MOUNTPOINTS"@]);
    run1_of("lsblk", &arr)
}

/// `list apps|disks|services` and `disks`.
pub open spec fn list_plan(a: Seq<Seq<char>>) -> Next<PlanView> {
    if a[0] == "disks"@ {
        if a.len() == 1 {
            done(Ok(disks_listing()))
        } else {
            done(Err(invalid_command()))
        }
    } else if a.len() == 2 && a[1] == "apps"@ {
        done(Ok(run1("pacman"@, seq!["-Q"@])))
    } else if a.len() == 2 && a[1] == "disks"@ {
        done(Ok(disks_listing()))
    } else if a.len() == 2 && a[1] == "services"@ {
        done(Ok(run1("systemctl"@, seq!["--no-pager"@, "list-unit-files"@, "--type=service"@])))
    } else {
        done(Err(invalid_command()))
    }
}

fn plan_list(a: &[&str]) -> (r: Outcome<Plan>)
    requires
        a@.len() > 0,
    ensures
        r@ == list_plan(strs(a@)),
{
    if word(a[0], "disks") {
        if a.len() == 1 {
            return Outcome::Done(Ok(disks_of()));
        }
        return Outcome::Done(Err(invalid_text()));
    }
    if a.len() == 2 && word(a[1], "apps") {
        let arr = ["-Q"];
        assert(strs(arr@) =~= seq!["-Q"@]);
        return Outcome::Done(Ok(run1_of("pacman", &arr)));
    }
    if a.len() == 2 && word(a[1], "disks") {
        return Outcome::Done(Ok(disks_of()));
    }
    if a.len() == 2 && word(a[1], "services") {
        let arr = ["--no-pager", "list-unit-files", "--type=service"];
        assert(strs(arr@) =~= seq!["--no-pager"@, "list-unit-files"@, "--type=service"@]);
        return Outcome::Done(Ok(run1_of("systemctl", &arr)));
    }
    Outcome::Done(Err(invalid_text()))
}

/// `p`, to be confirmed when `c` holds.
pub open spec fn confirm_if(p: PlanView, c: bool) -> PlanView {
    PlanView { confirm: c, ..p }
}

/// `start|stop|restart <name>`: a loaded systemd service is handled by
/// systemd; otherwise `stop` ends the processes with exactly that name,
/// `start` starts the application, and `restart` is refused. Only `start`
/// runs without confirmation.
pub open spec fn lifecycle_plan(a: Seq<Seq<char>>, ans: Seq<Answer>) -> Next<PlanView> {
    if a.len() != 2 {
        done(Err(invalid_command()))
    } else {
        let verb = a[0];
        let name = a[1];
        let c = verb != "start"@;
        if !is_safe(name) {
            done(Err(unsafe_message()))
        } else {
            match service_stage(name, ans, 0) {
                Stage::Got(true, _) => match unit_name(name) {
                    Ok(u) => done(Ok(confirm_if(run1("systemctl"@, seq![verb, "--"@, u]), c))),
                    Err(e) => done(Err(e)),
                },
                Stage::Got(false, _) => if verb == "restart"@ {
                    done(Err("Application restart is not supported; specify a systemd service"@))
                } else if verb == "stop"@ {
                    match process_pattern_of(name) {
                        Ok(pat) => done(Ok(confirm_if(run1("pkill"@, seq!["-TERM"@, "-x"@, "--"@, pat]), c))),
                        Err(e) => done(Err(e)),
                    }
                } else {
                    launch_outcome(confirm_if(empty_plan(), c), name)
                },
                s => stop(s),
            }
        }
    }
}

fn plan_lifecycle(a: &[&str], answers: &Vec<Answer>) -> (r: Outcome<Plan>)
    requires
        a@.len() > 0,
    ensures
        r@ == lifecycle_plan(strs(a@), answers@),
{
    if a.len() != 2 {
        return Outcome::Done(Err(invalid_text()));
    }
    let verb = a[0];
    let name = a[1];
    let c = !word(verb, "start");
    if let Err(e) = safe(chars_of(name).as_slice()) {
        return Outcome::Done(Err(e));
    }
    let mut k: usize = 0;
    let service = match is_service(name, answers, &mut k) {
        Progress::Got(b) => b,
        r => return halt(r),
    };
    if service {
        let u = match unit(chars_of(name).as_slice()) {
            Ok(u) => string_of(u.as_slice()),
            Err(e) => return Outcome::Done(Err(e)),
        };
        let arr = [verb, "--", u.as_str()];
        assert(strs(arr@) =~= seq![verb@, "--"@, u@]);
        let mut p = run1_of("systemctl", &arr);
        p.confirm = c;
        assert(p@ =~= confirm_if(run1("systemctl"@, seq![verb@, "--"@, u@]), c));
        return Outcome::Done(Ok(p));
    }
    if word(verb, "restart") {
        return refuse("Application restart is not supported; specify a systemd service");
    }
    if word(verb, "stop") {
        let pat = match process_pattern(name) {
            Ok(p) => p,
            Err(e) => return Outcome::Done(Err(e)),
        };
        let arr = ["-TERM", "-x", "--", pat.as_str()];
        assert(strs(arr@) =~= seq!["-TERM"@, "-x"@, "--"@, pat@]);
        let mut p = run1_of("pkill", &arr);
        p.confirm = c;
        assert(p@ =~= confirm_if(run1("pkill"@, seq!["-TERM"@, "-x"@, "--"@, pat@]), c));
        return Outcome::Done(Ok(p));
    }
    let mut p = Plan::default();
    p.confirm = c;
    assert(p@ =~= confirm_if(empty_plan(), c));
    match launch(&mut p, name) {
        Ok(()) => Outcome::Done(Ok(p)),
        Err(e) => Outcome::Done(Err(e)),
    }
}

/// `enable|disable <service>`.
pub open spec fn enablement_plan(a: Seq<Seq<char>>) -> Next<PlanView> {
    if a.len() != 2 {
        done(Err(invalid_command()))
    } else {
        match unit_name(a[1]) {
            Ok(u) => done(Ok(confirmed(run1("systemctl"@, seq![a[0], "--"@, u])))),
            Err(e) => done(Err(e)),
        }
    }
}

fn plan_enablement(a: &[&str]) -> (r: Outcome<Plan>)
    requires
        a@.len() > 0,
    ensures
        r@ == enablement_plan(strs(a@)),
{
    if a.len() != 2 {
        return Outcome::Done(Err(invalid_text()));
    }
    let u = match unit(chars_of(a[1]).as_slice()) {
        Ok(u) => string_of(u.as_slice()),
        Err(e) => return Outcome::Done(Err(e)),
    };
    let arr = [a[0], "--", u.as_str()];
    assert(strs(arr@) =~= seq![a@[0]@, "--"@, u@]);
    let mut p = run1_of("systemctl", &arr);
    p.confirm = true;
    assert(p@ =~= confirmed(run1("systemctl"@, seq![a@[0]@, "--"@, u@])));
    Outcome::Done(Ok(p))
}

/// `kill <pid|name>`: a process id other than 0, 1 and this process, or the
/// processes with exactly that name; always confirmed.
pub open spec fn kill_plan(a: Seq<Seq<char>>, env: Environment) -> Next<PlanView> {
    if a.len() != 2 {
        done(Err(invalid_command()))
    } else {
        let v = a[1];
        if !is_safe(v) {
            done(Err(unsafe_message()))
        } else if all_digits(v) {
            match unsigned_value(v) {
                Some(pid) => if pid > u32::MAX {
                    done(Err(u32_error(v)))
                } else if pid <= 1 || pid == env.pid {
                    done(Err("Refusing this PID"@))
                } else {
                    done(Ok(confirmed(run1("kill"@, seq!["-KILL"@, "--"@, v]))))
                },
                None => done(Err(u32_error(v))),
            }
        } else {
            match process_pattern_of(v) {
                Ok(pat) => done(Ok(confirmed(run1("pkill"@, seq!["-KILL"@, "-x"@, "--"@, pat])))),
                Err(e) => done(Err(e)),
            }
        }
    }
}

fn digits_only(v: &[char]) -> (r: bool)
    ensures
        r == all_digits(v@),
{
    let mut i: usize = 0;
    while i < v.len()
        invariant
            i <= v@.len(),
            forall|j: int| 0 <= j < i ==> crate::text::is_digit(#[trigger] v@[j]),
        decreases v.len() - i,
    {
        if !crate::text::digit(v[i]) {
            return false;
        }
        i = i + 1;
    }
    true
}

fn plan_kill(a: &[&str], env: &Environment) -> (r: Outcome<Plan>)
    requires
        a@.len() > 0,
    ensures
        r@ == kill_plan(strs(a@), *env),
{
    if a.len() != 2 {
        return Outcome::Done(Err(invalid_text()));
    }
    let v = a[1];
    let vc = chars_of(v);
    if let Err(e) = safe(vc.as_slice()) {
        return Outcome::Done(Err(e));
    }
    if digits_only(vc.as_slice()) {
        let pid = match parse_u32(v) {
            Ok(p) => p,
            Err(e) => return Outcome::Done(Err(e)),
        };
        if pid <= 1 || pid == env.pid {
            return refuse("Refusing this PID");
        }
        let arr = ["-KILL", "--", v];
        assert(strs(arr@) =~= seq!["-KILL"@, "--"@, v@]);
        let mut p = run1_of("kill", &arr);
        p.confirm = true;
        assert(p@ =~= confirmed(run1("kill"@, seq!["-KILL"@, "--"@, v@])));
        Outcome::Done(Ok(p))
    } else {
        let pat = match process_pattern(v) {
            Ok(p) => p,
            Err(e) => return Outcome::Done(Err(e)),
        };
        let arr = ["-KILL", "-x", "--", pat.as_str()];
        assert(strs(arr@) =~= seq!["-KILL"@, "-x"@, "--"@, pat@]);
        let mut p = run1_of("pkill", &arr);
        p.confirm = true;
        assert(p@ =~= confirmed(run1("pkill"@, seq!["-KILL"@, "-x"@, "--"@, pat@])));
        Outcome::Done(Ok(p))
    }
}

/// `logs [boot|<service>]`: the last hundred journal records.
pub open spec fn logs_plan(a: Seq<Seq<char>>) -> Next<PlanView> {
    if a.len() == 1 {
        done(Ok(run1("journalctl"@, seq!["--no-pager"@, "-n"@, "100"@])))
    } else if a.len() == 2 && a[1] == "boot"@ {
        done(Ok(run1("journalctl"@, seq!["--no-pager"@, "-b"@, "-n"@, "100"@])))
    } else if a.len() == 2 {
        match unit_name(a[1]) {
            Ok(u) => done(Ok(run1("journalctl"@, seq!["--no-pager"@, "-u"@, u, "-n"@, "100"@]))),
            Err(e) => done(Err(e)),
        }
    } else {
        done(Err(invalid_command()))
    }
}

fn plan_logs(a: &[&str]) -> (r: Outcome<Plan>)
    requires
        a@.len() > 0,
    ensures
        r@ == logs_plan(strs(a@)),
{
    if a.len() == 1 {
        let arr = ["--no-pager", "-n", "100"];
        assert(strs(arr@) =~= seq!["--no-pager"@, "-n"@, "100"@]);
        return Outcome::Done(Ok(run1_of("journalctl", &arr)));
    }
    if a.len() == 2 && word(a[1], "boot") {
        let arr = ["--no-pager", "-b", "-n", "100"];
        assert(strs(arr@) =~= seq!["--no-pager"@, "-b"@, "-n"@, "100"@]);
        return Outcome::Done(Ok(run1_of("journalctl", &arr)));
    }
    if a.len() == 2 {
        let u = match unit(chars_of(a[1]).as_slice()) {
            Ok(u) => string_of(u.as_slice()),
            Err(e) => return Outcome::Done(Err(e)),
        };
        let arr = ["--no-pager", "-u", u.as_str(), "-n", "100"];
        assert(strs(arr@) =~= seq!["--no-pager"@, "-u"@, u@, "-n"@, "100"@]);
        return Outcome::Done(Ok(run1_of("journalctl", &arr)));
    }
    Outcome::Done(Err(invalid_text()))
}

/// `delete user <name>`: only regular accounts (uid from 1000, not 65534);
/// the home directory is kept.
pub open spec fn delete_user_plan(a: Seq<Seq<char>>, ans: Seq<Answer>) -> Next<PlanView> {
    if a.len() != 3 {
        done(Err(invalid_command()))
    } else {
        let name = a[2];
        if !is_username(name) {
            done(Err(username_message()))
        } else {
            match output_stage("/usr/bin/id"@, seq!["-u"@, name], ans, 0) {
                Stage::Got(t, _) => match unsigned_value(t) {
                    Some(uid) => if uid > u32::MAX {
                        done(Err(u32_error(t)))
                    } else if uid < 1000 || uid == 65534 {
                        done(Err("Refusing deletion of a system user"@))
                    } else {
                        done(
                            Ok(
                                noted(
                                    confirmed(run1("userdel"@, seq!["--"@, name])),
                                    "Deletes the account; keeps its home directory. Active users are rejected by userdel."@,
                                ),
                            ),
                        )
                    },
                    None => done(Err(u32_error(t))),
                },
                s => stop(s),
            }
        }
    }
}

fn plan_delete_user(a: &[&str], answers: &Vec<Answer>) -> (r: Outcome<Plan>)
    requires
        a@.len() > 0,
    ensures
        r@ == delete_user_plan(strs(a@), answers@),
{
    if a.len() != 3 {
        return Outcome::Done(Err(invalid_text()));
    }
    let name = a[2];
    if let Err(e) = username(chars_of(name).as_slice()) {
        return Outcome::Done(Err(e));
    }
    let mut k: usize = 0;
    let arr = ["-u", name];
    assert(strs(arr@) =~= seq!["-u"@, name@]);
    let t = match ask_output("/usr/bin/id", &arr, answers, &mut k) {
        Progress::Got(t) => t,
        r => return halt(r),
    };
    let uid = match parse_u32(t.as_str()) {
        Ok(u) => u,
        Err(e) => return Outcome::Done(Err(e)),
    };
    if uid < 1000 || uid == 65534 {
        return refuse("Refusing deletion of a system user");
    }
    let arr2 = ["--", name];
    assert(strs(arr2@) =~= seq!["--"@, name@]);
    let mut p = run1_of("userdel", &arr2);
    p.confirm = true;
    p.note("Deletes the account; keeps its home directory. Active users are rejected by userdel.");
    Outcome::Done(Ok(p))
}


/// A line of `bluetoothctl devices`: its address and name.
pub open spec fn bt_entry(line: Seq<char>) -> Option<(Seq<char>, Seq<char>)> {
    if starts_with(line, "Device "@) {
        split_once(line.skip("Device "@.len() as int), ' ')
    } else {
        None
    }
}

/// The addresses of the listed devices named exactly `name`, in order.
pub open spec fn bt_matches(ls: Seq<Seq<char>>, name: Seq<char>) -> Seq<Seq<char>>
    decreases ls.len(),
{
    if ls.len() == 0 {
        Seq::empty()
    } else {
        let m = bt_matches(ls.drop_last(), name);
        match bt_entry(ls.last()) {
            Some((addr, n)) => if n == name {
                m.push(addr)
            } else {
                m
            },
            None => m,
        }
    }
}

/// The Bluetooth address a device argument names: a MAC address as given,
/// or the address of the one paired device with exactly that name.
pub open spec fn bluetooth_stage(name: Seq<char>, ans: Seq<Answer>, k: int) -> Stage<Seq<char>> {
    if !is_safe(name) {
        Stage::Fail(unsafe_message())
    } else if is_mac(name) {
        Stage::Got(name, k)
    } else {
        match output_stage("/usr/bin/bluetoothctl"@, seq!["devices"@], ans, k) {
            Stage::Got(t, k1) => {
                let m = bt_matches(lines(t), name);
                if m.len() != 1 {
                    Stage::Fail(
                        "Bluetooth name not found or ambiguous. Use the MAC address shown by mono scan bluetooth."@,
                    )
                } else {
                    Stage::Got(m[0], k1)
                }
            },
            s => s,
        }
    }
}

fn bt_entry_of(line: &[char]) -> (r: Option<(Vec<char>, Vec<char>)>)
    ensures
        match r {
            Some((a, n)) => bt_entry(line@) == Some((a@, n@)),
            None => bt_entry(line@) is None,
        },
{
    if !begins_lit(line, "Device ") {
        return None;
    }
    let key = chars_of("Device ");
    let rest = slice_of(line, key.len(), line.len());
    assert(rest@ =~= line@.skip("Device "@.len() as int));
    split_once_of(rest.as_slice(), ' ')
}

/// The Bluetooth address a device argument names.
pub(crate) fn bluetooth_address(name: &str, answers: &Vec<Answer>, k: &mut usize) -> (r: Progress<String>)
    ensures
        agrees(r, bluetooth_stage(name@, answers@, *old(k) as int), *final(k) as int),
{
    let nc = chars_of(name);
    if let Err(e) = safe(nc.as_slice()) {
        return Progress::Fail(e);
    }
    if mac(nc.as_slice()) {
        return Progress::Got(string_of(nc.as_slice()));
    }
    let arr = ["devices"];
    assert(strs(arr@) =~= seq!["devices"@]);
    let t = match ask_output("/usr/bin/bluetoothctl", &arr, answers, k) {
        Progress::Got(t) => t,
        Progress::Ask(q) => return Progress::Ask(q),
        Progress::Fail(e) => return Progress::Fail(e),
    };
    let ls = lines_of(chars_of(t.as_str()).as_slice());
    let ghost lv = texts(ls@);
    let mut found: Vec<Vec<char>> = Vec::new();
    let mut i: usize = 0;
    assert(lv.take(0) =~= Seq::<Seq<char>>::empty());
    while i < ls.len()
        invariant
            lv == texts(ls@),
            nc@ == name@,
            i <= ls@.len(),
            texts(found@) == bt_matches(lv.take(i as int), name@),
        decreases ls.len() - i,
    {
        assert(lv.take(i + 1).drop_last() =~= lv.take(i as int));
        assert(lv.take(i + 1).last() == ls@[i as int]@);
        match bt_entry_of(ls[i].as_slice()) {
            Some((addr, n)) => {
                if crate::text::same(n.as_slice(), nc.as_slice()) {
                    proof {
                        crate::text::lemma_texts_push(found@, addr);
                    }
                    found.push(addr);
                }
            },
            None => {},
        }
        i = i + 1;
    }
    assert(lv.take(ls@.len() as int) =~= lv);
    if found.len() != 1 {
        return Progress::Fail(string_of(chars_of("Bluetooth name not found or ambiguous. Use the MAC address shown by mono scan bluetooth.").as_slice()));
    }
    assert(texts(found@)[0] == found@[0]@);
    Progress::Got(string_of(found[0].as_slice()))
}

/// `check disk <device>` (SMART health) and `check network` (addresses and route).
pub open spec fn check_plan(a: Seq<Seq<char>>, ans: Seq<Answer>) -> Next<PlanView> {
    if a.len() == 3 && a[1] == "disk"@ {
        match device_stage(a[2], ans, 0) {
            Stage::Got(d, _) => done(
                Ok(
                    noted(
                        run1("smartctl"@, seq!["-H"@, d]),
                        "Read-only SMART health check, not a filesystem repair; some virtual/USB disks do not support SMART."@,
                    ),
                ),
            ),
            s => stop(s),
        }
    } else if a.len() == 2 && a[1] == "network"@ {
        done(
            Ok(
                noted(
                    steps_plan(
                        seq![
                            tool("ip"@, seq!["-brief"@, "address"@]),
                            tool("ip"@, seq!["route"@, "get"@, "1.1.1.1"@]),
                        ],
                    ),
                    "Checks local addresses and route selection only; no packets sent. For DNS/TCP use mono network check <host>."@,
                ),
            ),
        )
    } else {
        done(Err(invalid_command()))
    }
}

fn plan_check(a: &[&str], answers: &Vec<Answer>) -> (r: Outcome<Plan>)
    requires
        a@.len() > 0,
    ensures
        r@ == check_plan(strs(a@), answers@),
{
    if a.len() == 3 && word(a[1], "disk") {
        let mut k: usize = 0;
        let d = match device(a[2], answers, &mut k) {
            Progress::Got(d) => d,
            r => return halt(r),
        };
        let arr = ["-H", d.as_str()];
        assert(strs(arr@) =~= seq!["-H"@, d@]);
        let mut p = run1_of("smartctl", &arr);
        p.note("Read-only SMART health check, not a filesystem repair; some virtual/USB disks do not support SMART.");
        return Outcome::Done(Ok(p));
    }
    if a.len() == 2 && word(a[1], "network") {
        let mut p = Plan::default();
        let a1 = ["-brief", "address"];
        let a2 = ["route", "get", "1.1.1.1"];
        p.add("ip", &a1);
        p.add("ip", &a2);
        assert(strs(a1@) =~= seq!["-brief"@, "address"@]);
        assert(strs(a2@) =~= seq!["route"@, "get"@, "1.1.1.1"@]);
        p.note("Checks local addresses and route selection only; no packets sent. For DNS/TCP use mono network check <host>.");
        assert(p@ =~= noted(
            steps_plan(
                seq![
                    tool("ip"@, seq!["-brief"@, "address"@]),
                    tool("ip"@, seq!["route"@, "get"@, "1.1.1.1"@]),
                ],
            ),
            "Checks local addresses and route selection only; no packets sent. For DNS/TCP use mono network check <host>."@,
        ));
        return Outcome::Done(Ok(p));
    }
    Outcome::Done(Err(invalid_text()))
}

/// `scan wifi|bluetooth`.
pub open spec fn scan_plan(a: Seq<Seq<char>>) -> Next<PlanView> {
    if a.len() == 2 && a[1] == "wifi"@ {
        done(Ok(run1("nmcli"@, seq!["device"@, "wifi"@, "list"@, "--rescan"@, "yes"@])))
    } else if a.len() == 2 && a[1] == "bluetooth"@ {
        done(Ok(run1("bluetoothctl"@, seq!["--timeout"@, "10"@, "scan"@, "on"@])))
    } else {
        done(Err(invalid_command()))
    }
}

fn plan_scan(a: &[&str]) -> (r: Outcome<Plan>)
    requires
        a@.len() > 0,
    ensures
        r@ == scan_plan(strs(a@)),
{
    if a.len() == 2 && word(a[1], "wifi") {
        let arr = ["device", "wifi", "list", "--rescan", "yes"];
        assert(strs(arr@) =~= seq!["device"@, "wifi"@, "list"@, "--rescan"@, "yes"@]);
        return Outcome::Done(Ok(run1_of("nmcli", &arr)));
    }
    if a.len() == 2 && word(a[1], "bluetooth") {
        let arr = ["--timeout", "10", "scan", "on"];
        assert(strs(arr@) =~= seq!["--timeout"@, "10"@, "scan"@, "on"@]);
        return Outcome::Done(Ok(run1_of("bluetoothctl", &arr)));
    }
    Outcome::Done(Err(invalid_text()))
}

/// `connect|disconnect bluetooth <device>`: the device must be paired.
pub open spec fn bluetooth_plan(a: Seq<Seq<char>>, ans: Seq<Answer>) -> Next<PlanView> {
    match bluetooth_stage(a[2], ans, 0) {
        Stage::Got(addr, _) => done(
            Ok(
                noted(
                    confirmed(run1("bluetoothctl"@, seq!["--timeout"@, "20"@, a[0], addr])),
                    "Device must already be paired; use bluetoothctl for initial pairing."@,
                ),
            ),
        ),
        s => stop(s),
    }
}

fn plan_bluetooth(a: &[&str], answers: &Vec<Answer>) -> (r: Outcome<Plan>)
    requires
        a@.len() == 3,
    ensures
        r@ == bluetooth_plan(strs(a@), answers@),
{
    let mut k: usize = 0;
    let addr = match bluetooth_address(a[2], answers, &mut k) {
        Progress::Got(x) => x,
        r => return halt(r),
    };
    let arr = ["--timeout", "20", a[0], addr.as_str()];
    assert(strs(arr@) =~= seq!["--timeout"@, "20"@, a@[0]@, addr@]);
    let mut p = run1_of("bluetoothctl", &arr);
    p.confirm = true;
    p.note("Device must already be paired; use bluetoothctl for initial pairing.");
    Outcome::Done(Ok(p))
}

/// `connect wifi <ssid>` (the password is asked interactively) and
/// `connect bluetooth <device>`.
pub open spec fn connect_plan(a: Seq<Seq<char>>, ans: Seq<Answer>) -> Next<PlanView> {
    if a.len() == 3 && a[1] == "wifi"@ {
        if is_safe(a[2]) {
            done(
                Ok(
                    confirmed(
                        steps_plan(
                            seq![
                                tool("nmcli"@, seq!["radio"@, "wifi"@, "on"@]),
                                tool("nmcli"@, seq!["--ask"@, "device"@, "wifi"@, "connect"@, a[2]]),
                            ],
                        ),
                    ),
                ),
            )
        } else {
            done(Err(unsafe_message()))
        }
    } else if a.len() == 3 && a[1] == "bluetooth"@ {
        bluetooth_plan(a, ans)
    } else {
        done(Err(invalid_command()))
    }
}

fn plan_connect(a: &[&str], answers: &Vec<Answer>) -> (r: Outcome<Plan>)
    requires
        a@.len() > 0,
    ensures
        r@ == connect_plan(strs(a@), answers@),
{
    if a.len() == 3 && word(a[1], "wifi") {
        if let Err(e) = safe(chars_of(a[2]).as_slice()) {
            return Outcome::Done(Err(e));
        }
        let mut p = Plan::default();
        let a1 = ["radio", "wifi", "on"];
        let a2 = ["--ask", "device", "wifi", "connect", a[2]];
        p.add("nmcli", &a1);
        p.add("nmcli", &a2);
        p.confirm = true;
        assert(strs(a1@) =~= seq!["radio"@, "wifi"@, "on"@]);
        assert(strs(a2@) =~= seq!["--ask"@, "device"@, "wifi"@, "connect"@, a@[2]@]);
        assert(p@ =~= confirmed(
            steps_plan(
                seq![
                    tool("nmcli"@, seq!["radio"@, "wifi"@, "on"@]),
                    tool("nmcli"@, seq!["--ask"@, "device"@, "wifi"@, "connect"@, a@[2]@]),
                ],
            ),
        ));
        return Outcome::Done(Ok(p));
    }
    if a.len() == 3 && word(a[1], "bluetooth") {
        return plan_bluetooth(a, answers);
    }
    Outcome::Done(Err(invalid_text()))
}

/// `disconnect wifi` turns the Wi-Fi radio off; `disconnect bluetooth <device>`.
pub open spec fn disconnect_plan(a: Seq<Seq<char>>, ans: Seq<Answer>) -> Next<PlanView> {
    if a.len() == 2 && a[1] == "wifi"@ {
        done(
            Ok(
                noted(
                    confirmed(run1("nmcli"@, seq!["radio"@, "wifi"@, "off"@])),
                    "Turns Wi-Fi radio off for all adapters. Re-enable with mono connect wifi <SSID>."@,
                ),
            ),
        )
    } else if a.len() == 3 && a[1] == "bluetooth"@ {
        bluetooth_plan(a, ans)
    } else {
        done(Err(invalid_command()))
    }
}

fn plan_disconnect(a: &[&str], answers: &Vec<Answer>) -> (r: Outcome<Plan>)
    requires
        a@.len() > 0,
    ensures
        r@ == disconnect_plan(strs(a@), answers@),
{
    if a.len() == 2 && word(a[1], "wifi") {
        let arr = ["radio", "wifi", "off"];
        assert(strs(arr@) =~= seq!["radio"@, "wifi"@, "off"@]);
        let mut p = run1_of("nmcli", &arr);
        p.confirm = true;
        p.note("Turns Wi-Fi radio off for all adapters. Re-enable with mono connect wifi <SSID>.");
        return Outcome::Done(Ok(p));
    }
    if a.len() == 3 && word(a[1], "bluetooth") {
        return plan_bluetooth(a, answers);
    }
    Outcome::Done(Err(invalid_text()))
}

/// `ping <host>`: four probes, two seconds each.
pub open spec fn ping_plan(a: Seq<Seq<char>>) -> Next<PlanView> {
    if a.len() != 2 {
        done(Err(invalid_command()))
    } else if !is_safe(a[1]) {
        done(Err(unsafe_message()))
    } else {
        done(Ok(run1("ping"@, seq!["-c"@, "4"@, "-W"@, "2"@, "--"@, a[1]])))
    }
}

fn plan_ping(a: &[&str]) -> (r: Outcome<Plan>)
    requires
        a@.len() > 0,
    ensures
        r@ == ping_plan(strs(a@)),
{
    if a.len() != 2 {
        return Outcome::Done(Err(invalid_text()));
    }
    if let Err(e) = safe(chars_of(a[1]).as_slice()) {
        return Outcome::Done(Err(e));
    }
    let arr = ["-c", "4", "-W", "2", "--", a[1]];
    assert(strs(arr@) =~= seq!["-c"@, "4"@, "-W"@, "2"@, "--"@, a@[1]@]);
    Outcome::Done(Ok(run1_of("ping", &arr)))
}

/// The listing of network interfaces.
pub open spec fn interfaces_listing() -> PlanView {
    run1("ip"@, seq!["-brief"@, "address"@])
}

fn interfaces_of() -> (r: Plan)
    ensures
        r@ == interfaces_listing(),
{
    let arr = ["-brief", "address"];
    assert(strs(arr@) =~= seq!["-brief"@, "address"@]);
    run1_of("ip", &arr)
}

/// `network interfaces`.
pub open spec fn network_plan(a: Seq<Seq<char>>) -> Next<PlanView> {
    if a.len() == 2 && a[1] == "interfaces"@ {
        done(Ok(interfaces_listing()))
    } else {
        done(Err(invalid_command()))
    }
}

fn plan_network(a: &[&str]) -> (r: Outcome<Plan>)
    requires
        a@.len() > 0,
    ensures
        r@ == network_plan(strs(a@)),
{
    if a.len() == 2 && word(a[1], "interfaces") {
        Outcome::Done(Ok(interfaces_of()))
    } else {
        Outcome::Done(Err(invalid_text()))
    }
}

/// `ip`, `ip <iface>`, and `ip <iface> add|delete <address>/<prefix>` (a
/// temporary change, confirmed; the prefix must fit the address family).
pub open spec fn ip_plan(a: Seq<Seq<char>>, ans: Seq<Answer>) -> Next<PlanView> {
    if a.len() == 1 {
        done(Ok(interfaces_listing()))
    } else if a.len() == 2 {
        if is_safe(a[1]) {
            done(Ok(run1("ip"@, seq!["address"@, "show"@, "dev"@, a[1]])))
        } else {
            done(Err(unsafe_message()))
        }
    } else if a.len() == 4 && (a[2] == "add"@ || a[2] == "delete"@) {
        match split_once(a[3], '/') {
            None => done(Err("Expected IP/prefix"@)),
            Some((ip, prefix)) => match checked_stage(QueryView::IpAddress(ip), ans, 0) {
                Stage::Got(v4, _) => match unsigned_value(prefix) {
                    Some(n) => if n > u8::MAX {
                        done(Err(u8_error(prefix)))
                    } else if n > (if v4 {
                        32int
                    } else {
                        128int
                    }) {
                        done(Err("Invalid prefix"@))
                    } else if !is_safe(a[1]) {
                        done(Err(unsafe_message()))
                    } else {
                        done(
                            Ok(
                                noted(
                                    confirmed(run1("ip"@, seq!["address"@, a[2], a[3], "dev"@, a[1]])),
                                    "Temporary address change; does not persist after reboot."@,
                                ),
                            ),
                        )
                    },
                    None => done(Err(u8_error(prefix))),
                },
                s => stop(s),
            },
        }
    } else {
        done(Err(invalid_command()))
    }
}

fn plan_ip(a: &[&str], answers: &Vec<Answer>) -> (r: Outcome<Plan>)
    requires
        a@.len() > 0,
    ensures
        r@ == ip_plan(strs(a@), answers@),
{
    if a.len() == 1 {
        return Outcome::Done(Ok(interfaces_of()));
    }
    if a.len() == 2 {
        if let Err(e) = safe(chars_of(a[1]).as_slice()) {
            return Outcome::Done(Err(e));
        }
        let arr = ["address", "show", "dev", a[1]];
        assert(strs(arr@) =~= seq!["address"@, "show"@, "dev"@, a@[1]@]);
        return Outcome::Done(Ok(run1_of("ip", &arr)));
    }
    if !(a.len() == 4 && (word(a[2], "add") || word(a[2], "delete"))) {
        return Outcome::Done(Err(invalid_text()));
    }
    let (ip, prefix) = match split_once_of(chars_of(a[3]).as_slice(), '/') {
        Some(x) => x,
        None => return refuse("Expected IP/prefix"),
    };
    let mut k: usize = 0;
    let v4 = match ask_checked(Query::IpAddress(string_of(ip.as_slice())), answers, &mut k) {
        Progress::Got(b) => b,
        r => return halt(r),
    };
    let n = match parse_u8(string_of(prefix.as_slice()).as_str()) {
        Ok(n) => n,
        Err(e) => return Outcome::Done(Err(e)),
    };
    let limit: u8 = if v4 {
        32
    } else {
        128
    };
    if n > limit {
        return refuse("Invalid prefix");
    }
    if let Err(e) = safe(chars_of(a[1]).as_slice()) {
        return Outcome::Done(Err(e));
    }
    let arr = ["address", a[2], a[3], "dev", a[1]];
    assert(strs(arr@) =~= seq!["address"@, a@[2]@, a@[3]@, "dev"@, a@[1]@]);
    let mut p = run1_of("ip", &arr);
    p.confirm = true;
    p.note("Temporary address change; does not persist after reboot.");
    Outcome::Done(Ok(p))
}

/// `dns` shows the resolver configuration; `dns <iface> <server>` sets a
/// runtime DNS server for one link.
pub open spec fn dns_plan(a: Seq<Seq<char>>, ans: Seq<Answer>) -> Next<PlanView> {
    if a.len() == 1 {
        done(Ok(run1("cat"@, seq!["/etc/resolv.conf"@])))
    } else if a.len() == 3 {
        match checked_stage(QueryView::IpAddress(a[2]), ans, 0) {
            Stage::Got(_, _) => if is_safe(a[1]) {
                done(
                    Ok(
                        noted(
                            confirmed(run1("resolvectl"@, seq!["dns"@, a[1], a[2]])),
                            "Runtime per-link DNS; requires systemd-resolved. Not persistent."@,
                        ),
                    ),
                )
            } else {
                done(Err(unsafe_message()))
            },
            s => stop(s),
        }
    } else {
        done(Err(invalid_command()))
    }
}

fn plan_dns(a: &[&str], answers: &Vec<Answer>) -> (r: Outcome<Plan>)
    requires
        a@.len() > 0,
    ensures
        r@ == dns_plan(strs(a@), answers@),
{
    if a.len() == 1 {
        let arr = ["/etc/resolv.conf"];
        assert(strs(arr@) =~= seq!["/etc/resolv.conf"@]);
        return Outcome::Done(Ok(run1_of("cat", &arr)));
    }
    if a.len() != 3 {
        return Outcome::Done(Err(invalid_text()));
    }
    let mut k: usize = 0;
    match ask_checked(Query::IpAddress(string_of(chars_of(a[2]).as_slice())), answers, &mut k) {
        Progress::Got(_) => {},
        r => return halt(r),
    }
    if let Err(e) = safe(chars_of(a[1]).as_slice()) {
        return Outcome::Done(Err(e));
    }
    let arr = ["dns", a[1], a[2]];
    assert(strs(arr@) =~= seq!["dns"@, a@[1]@, a@[2]@]);
    let mut p = run1_of("resolvectl", &arr);
    p.confirm = true;
    p.note("Runtime per-link DNS; requires systemd-resolved. Not persistent.");
    Outcome::Done(Ok(p))
}

/// `ports` lists listening sockets; `ports <port>` those on one port.
pub open spec fn ports_plan(a: Seq<Seq<char>>) -> Next<PlanView> {
    if a.len() == 1 {
        done(Ok(run1("ss"@, seq!["-lntup"@])))
    } else if a.len() == 2 {
        match unsigned_value(a[1]) {
            Some(n) => if n > u16::MAX {
                done(Err(u16_error(a[1])))
            } else if n == 0 {
                done(Err("Invalid port"@))
            } else {
                done(Ok(run1("ss"@, seq!["-lntup"@, "sport = :"@ + decimal(n as nat)])))
            },
            None => done(Err(u16_error(a[1]))),
        }
    } else {
        done(Err(invalid_command()))
    }
}

fn plan_ports(a: &[&str]) -> (r: Outcome<Plan>)
    requires
        a@.len() > 0,
    ensures
        r@ == ports_plan(strs(a@)),
{
    if a.len() == 1 {
        let arr = ["-lntup"];
        assert(strs(arr@) =~= seq!["-lntup"@]);
        return Outcome::Done(Ok(run1_of("ss", &arr)));
    }
    if a.len() != 2 {
        return Outcome::Done(Err(invalid_text()));
    }
    let n = match parse_u16(a[1]) {
        Ok(n) => n,
        Err(e) => return Outcome::Done(Err(e)),
    };
    if n == 0 {
        return refuse("Invalid port");
    }
    let mut f: Vec<char> = Vec::new();
    append_lit(&mut f, "sport = :");
    append(&mut f, decimal_of(n as u64).as_slice());
    let fs = string_of(f.as_slice());
    let arr = ["-lntup", fs.as_str()];
    assert(strs(arr@) =~= seq!["-lntup"@, "sport = :"@ + decimal(n as nat)]);
    Outcome::Done(Ok(run1_of("ss", &arr)))
}

/// `mount|unmount <device>` through udisks; confirmed.
pub open spec fn mount_plan(a: Seq<Seq<char>>, ans: Seq<Answer>) -> Next<PlanView> {
    if a.len() != 2 {
        done(Err(invalid_command()))
    } else {
        match device_stage(a[1], ans, 0) {
            Stage::Got(d, _) => done(Ok(confirmed(run1("udisksctl"@, seq![a[0], "-b"@, d])))),
            s => stop(s),
        }
    }
}

fn plan_mount(a: &[&str], answers: &Vec<Answer>) -> (r: Outcome<Plan>)
    requires
        a@.len() > 0,
    ensures
        r@ == mount_plan(strs(a@), answers@),
{
    if a.len() != 2 {
        return Outcome::Done(Err(invalid_text()));
    }
    let mut k: usize = 0;
    let d = match device(a[1], answers, &mut k) {
        Progress::Got(d) => d,
        r => return halt(r),
    };
    let arr = [a[0], "-b", d.as_str()];
    assert(strs(arr@) =~= seq![a@[0]@, "-b"@, d@]);
    let mut p = run1_of("udisksctl", &arr);
    p.confirm = true;
    Outcome::Done(Ok(p))
}

/// The formatting program for a filesystem name.
pub open spec fn mkfs_for(fs: Seq<char>) -> Option<Seq<char>> {
    if fs == "ext4"@ {
        Some("mkfs.ext4"@)
    } else if fs == "vfat"@ || fs == "fat32"@ {
        Some("mkfs.vfat"@)
    } else if fs == "exfat"@ {
        Some("mkfs.exfat"@)
    } else {
        None
    }
}

/// `format <device> <filesystem>`: confirmed by typing the device name; the
/// device is checked again right before formatting.
pub open spec fn format_plan(a: Seq<Seq<char>>, ans: Seq<Answer>) -> Next<PlanView> {
    if a.len() != 3 {
        done(Err(invalid_command()))
    } else {
        match device_stage(a[1], ans, 0) {
            Stage::Got(d, _) => match mkfs_for(a[2]) {
                Some(program) => done(
                    Ok(PlanView { confirm: true, format_device: Some(d), ..run1(program, seq![d]) }),
                ),
                None => done(Err("Supported filesystems: ext4, vfat/fat32, exfat"@)),
            },
            s => stop(s),
        }
    }
}

fn plan_format(a: &[&str], answers: &Vec<Answer>) -> (r: Outcome<Plan>)
    requires
        a@.len() > 0,
    ensures
        r@ == format_plan(strs(a@), answers@),
{
    if a.len() != 3 {
        return Outcome::Done(Err(invalid_text()));
    }
    let mut k: usize = 0;
    let d = match device(a[1], answers, &mut k) {
        Progress::Got(d) => d,
        r => return halt(r),
    };
    let fs = a[2];
    let program = if word(fs, "ext4") {
        "mkfs.ext4"
    } else if word(fs, "vfat") || word(fs, "fat32") {
        "mkfs.vfat"
    } else if word(fs, "exfat") {
        "mkfs.exfat"
    } else {
        return refuse("Supported filesystems: ext4, vfat/fat32, exfat");
    };
    let arr = [d.as_str()];
    assert(strs(arr@) =~= seq![d@]);
    let mut p = run1_of(program, &arr);
    p.confirm = true;
    p.format_device = Some(d);
    Outcome::Done(Ok(p))
}

/// The service manager action for a power verb.
pub open spec fn power_action(verb: Seq<char>) -> Seq<char> {
    if verb == "shutdown"@ {
        "poweroff"@
    } else if verb == "sleep"@ {
        "suspend"@
    } else {
        "reboot"@
    }
}

/// `reboot|shutdown|sleep`; confirmed.
pub open spec fn power_plan(a: Seq<Seq<char>>) -> Next<PlanView> {
    if a.len() == 1 {
        done(Ok(confirmed(run1("systemctl"@, seq![power_action(a[0])]))))
    } else {
        done(Err(invalid_command()))
    }
}

fn plan_power(a: &[&str]) -> (r: Outcome<Plan>)
    requires
        a@.len() > 0,
    ensures
        r@ == power_plan(strs(a@)),
{
    if a.len() != 1 {
        return Outcome::Done(Err(invalid_text()));
    }
    let action = if word(a[0], "shutdown") {
        "poweroff"
    } else if word(a[0], "sleep") {
        "suspend"
    } else {
        "reboot"
    };
    let arr = [action];
    assert(strs(arr@) =~= seq![power_action(a@[0]@)]);
    let mut p = run1_of("systemctl", &arr);
    p.confirm = true;
    Outcome::Done(Ok(p))
}

/// `lock`: lock the current login session.
pub open spec fn lock_plan(a: Seq<Seq<char>>, env: Environment) -> Next<PlanView> {
    if a.len() != 1 {
        done(Err(invalid_command()))
    } else {
        match env.session {
            None => done(Err("No graphical/login session: XDG_SESSION_ID is not set"@)),
            Some(s) => if is_safe(s@) {
                done(
                    Ok(
                        noted(
                            run1("loginctl"@, seq!["lock-session"@, s@]),
                            "Requires a running session locker integrated with the desktop/compositor."@,
                        ),
                    ),
                )
            } else {
                done(Err(unsafe_message()))
            },
        }
    }
}

fn plan_lock(a: &[&str], env: &Environment) -> (r: Outcome<Plan>)
    requires
        a@.len() > 0,
    ensures
        r@ == lock_plan(strs(a@), *env),
{
    if a.len() != 1 {
        return Outcome::Done(Err(invalid_text()));
    }
    let s = match &env.session {
        Some(s) => s,
        None => return refuse("No graphical/login session: XDG_SESSION_ID is not set"),
    };
    if let Err(e) = safe(chars_of(s.as_str()).as_slice()) {
        return Outcome::Done(Err(e));
    }
    let arr = ["lock-session", s.as_str()];
    assert(strs(arr@) =~= seq!["lock-session"@, s@]);
    let mut p = run1_of("loginctl", &arr);
    p.note("Requires a running session locker integrated with the desktop/compositor.");
    Outcome::Done(Ok(p))
}


/// What a command line plans to do, given the environment and the answers
/// to the queries asked so far (in order).
pub open spec fn plan_of(a: Seq<Seq<char>>, env: Environment, ans: Seq<Answer>) -> Next<PlanView> {
    if a.len() == 0 {
        done(Err(invalid_command()))
    } else {
        let w = a[0];
        if w == "delete"@ && !(a.len() >= 2 && a[1] == "user"@) {
            crate::removal::delete_plan_of(a.drop_first(), env, ans)
        } else if w == "delete"@ {
            delete_user_plan(a, ans)
        } else if w == "status"@ {
            status_plan(a)
        } else if w == "info"@ {
            info_plan(a, env, ans)
        } else if w == "list"@ || w == "disks"@ {
            list_plan(a)
        } else if w == "create"@ {
            create_plan(a, env, ans)
        } else if w == "copy"@ || w == "move"@ {
            transfer_plan(a, env)
        } else if w == "find"@ {
            find_plan(a, env)
        } else if w == "read"@ {
            show_plan(a, env)
        } else if w == "edit"@ {
            edit_plan(a, env)
        } else if w == "open"@ {
            open_plan(a, env, ans)
        } else if w == "permissions"@ {
            if a.len() == 3 {
                chmod_plan(a, env)
            } else {
                show_plan(a, env)
            }
        } else if w == "owner"@ {
            if a.len() == 3 {
                chown_plan(a, env)
            } else {
                show_plan(a, env)
            }
        } else if w == "search"@ {
            search_plan(a)
        } else if w == "install"@ || w == "uninstall"@ || w == "update"@ {
            package_plan(a)
        } else if w == "clean"@ {
            clean_plan(a)
        } else if w == "start"@ || w == "stop"@ || w == "restart"@ {
            lifecycle_plan(a, ans)
        } else if w == "enable"@ || w == "disable"@ {
            enablement_plan(a)
        } else if w == "kill"@ {
            kill_plan(a, env)
        } else if w == "usage"@ {
            usage_plan(a, env, ans)
        } else if w == "check"@ {
            check_plan(a, ans)
        } else if w == "logs"@ {
            logs_plan(a)
        } else if w == "scan"@ {
            scan_plan(a)
        } else if w == "connect"@ {
            connect_plan(a, ans)
        } else if w == "disconnect"@ {
            disconnect_plan(a, ans)
        } else if w == "ping"@ {
            ping_plan(a)
        } else if w == "network"@ {
            network_plan(a)
        } else if w == "ip"@ {
            ip_plan(a, ans)
        } else if w == "dns"@ {
            dns_plan(a, ans)
        } else if w == "ports"@ {
            ports_plan(a)
        } else if w == "mount"@ || w == "unmount"@ {
            mount_plan(a, ans)
        } else if w == "format"@ {
            format_plan(a, ans)
        } else if w == "reboot"@ || w == "shutdown"@ || w == "sleep"@ {
            power_plan(a)
        } else if w == "lock"@ {
            lock_plan(a, env)
        } else {
            done(Err(invalid_command()))
        }
    }
}

/// The words after the first.
fn tail<'a>(a: &[&'a str]) -> (r: Vec<&'a str>)
    requires
        a@.len() > 0,
    ensures
        strs(r@) == strs(a@).drop_first(),
{
    let mut r: Vec<&'a str> = Vec::new();
    let mut i: usize = 1;
    while i < a.len()
        invariant
            1 <= i <= a@.len(),
            r@ == a@.subrange(1, i as int),
        decreases a.len() - i,
    {
        r.push(a[i]);
        i = i + 1;
        assert(r@ =~= a@.subrange(1, i as int));
    }
    assert(strs(r@) =~= strs(a@).drop_first());
    r
}

/// Plans a command line. The answers are those to the queries this
/// function asked before, in order; it finishes, or asks for one more fact.
pub fn plan(args: &[&str], env: &Environment, answers: &Vec<Answer>) -> (r: Outcome<Plan>)
    ensures
        r@ == plan_of(strs(args@), *env, answers@),
{
    let a = args;
    if a.len() == 0 {
        return Outcome::Done(Err(invalid_text()));
    }
    let w = a[0];
    if word(w, "delete") && !(a.len() >= 2 && word(a[1], "user")) {
        let rest = tail(a);
        return crate::removal::delete_plan(rest.as_slice(), env, answers);
    }
    if word(w, "delete") {
        plan_delete_user(a, answers)
    } else if word(w, "status") {
        plan_status(a)
    } else if word(w, "info") {
        plan_info(a, env, answers)
    } else if word(w, "list") || word(w, "disks") {
        plan_list(a)
    } else if word(w, "create") {
        plan_create(a, env, answers)
    } else if word(w, "copy") || word(w, "move") {
        plan_transfer(a, env)
    } else if word(w, "find") {
        plan_find(a, env)
    } else if word(w, "read") {
        plan_show(a, env)
    } else if word(w, "edit") {
        plan_edit(a, env)
    } else if word(w, "open") {
        plan_open(a, env, answers)
    } else if word(w, "permissions") {
        if a.len() == 3 {
            plan_chmod(a, env)
        } else {
            plan_show(a, env)
        }
    } else if word(w, "owner") {
        if a.len() == 3 {
            plan_chown(a, env)
        } else {
            plan_show(a, env)
        }
    } else if word(w, "search") {
        plan_search(a)
    } else if word(w, "install") || word(w, "uninstall") || word(w, "update") {
        plan_package(a)
    } else if word(w, "clean") {
        plan_clean(a)
    } else if word(w, "start") || word(w, "stop") || word(w, "restart") {
        plan_lifecycle(a, answers)
    } else if word(w, "enable") || word(w, "disable") {
        plan_enablement(a)
    } else if word(w, "kill") {
        plan_kill(a, env)
    } else if word(w, "usage") {
        plan_usage(a, env, answers)
    } else if word(w, "check") {
        plan_check(a, answers)
    } else if word(w, "logs") {
        plan_logs(a)
    } else if word(w, "scan") {
        plan_scan(a)
    } else if word(w, "connect") {
        plan_connect(a, answers)
    } else if word(w, "disconnect") {
        plan_disconnect(a, answers)
    } else if word(w, "ping") {
        plan_ping(a)
    } else if word(w, "network") {
        plan_network(a)
    } else if word(w, "ip") {
        plan_ip(a, answers)
    } else if word(w, "dns") {
        plan_dns(a, answers)
    } else if word(w, "ports") {
        plan_ports(a)
    } else if word(w, "mount") || word(w, "unmount") {
        plan_mount(a, answers)
    } else if word(w, "format") {
        plan_format(a, answers)
    } else if word(w, "reboot") || word(w, "shutdown") || word(w, "sleep") {
        plan_power(a)
    } else if word(w, "lock") {
        plan_lock(a, env)
    } else {
        Outcome::Done(Err(invalid_text()))
    }
}

} // verus!
