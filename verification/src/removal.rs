//! Deletion plans and the guards around them, and the checks before a
//! partition is formatted.

use vstd::prelude::*;
use crate::command::{empty_plan, strings, strs, tool, Plan, PlanView};
use crate::commands::{device, device_stage, run1, steps_plan};
use crate::paths::{
    file_name, file_name_of, join_path, join_path_of, parent, parent_of, path_starts_with,
    path_starts_with_of, same_path, same_path_of,
};
use crate::probe::{
    agrees, answer_at, ask_checked, ask_output, canonical_stage, checked_stage, mismatch,
    mismatch_text, output_stage, resolve, resolved, stop, take_answer, text_stage, ask_text,
    Answer, Environment, Location, Next, Outcome, Progress, Query, QueryView, Stage,
};
use crate::text::{
    append, append_lit, begins_lit, chars_of, equals, lines, lines_of, string_of, texts, trim, trim_of,
    views, words, words_of, lemma_views_push,
};

verus! {

/// The options and target of a deletion, as read so far.
pub struct DeleteArgs {
    pub force: bool,
    pub permanent: bool,
    pub target: Option<Seq<char>>,
    pub positional: bool,
}

/// Reads one more deletion argument: `--force` and `--permanent` until
/// `--`; any other option is refused; exactly one target.
pub open spec fn delete_arg(s: DeleteArgs, arg: Seq<char>) -> Result<DeleteArgs, Seq<char>> {
    if arg == "--"@ && !s.positional {
        Ok(DeleteArgs { positional: true, ..s })
    } else if arg == "--force"@ && !s.positional {
        Ok(DeleteArgs { force: true, ..s })
    } else if arg == "--permanent"@ && !s.positional {
        Ok(DeleteArgs { permanent: true, ..s })
    } else if !s.positional && arg.len() > 0 && arg[0] == '-' {
        Err("Неизвестный параметр: "@ + arg + ". См. mono help delete"@)
    } else if s.target is Some {
        Err("Укажите один объект удаления"@)
    } else {
        Ok(DeleteArgs { target: Some(arg), ..s })
    }
}

/// Reads all deletion arguments.
pub open spec fn delete_args(a: Seq<Seq<char>>) -> Result<DeleteArgs, Seq<char>>
    decreases a.len(),
{
    if a.len() == 0 {
        Ok(DeleteArgs { force: false, permanent: false, target: None, positional: false })
    } else {
        match delete_args(a.drop_last()) {
            Err(e) => Err(e),
            Ok(s) => delete_arg(s, a.last()),
        }
    }
}

/// The paths that are never deleted.
pub open spec fn forbidden_paths() -> Seq<Seq<char>> {
    seq![
        "/"@,
        "/bin"@,
        "/boot"@,
        "/dev"@,
        "/etc"@,
        "/home"@,
        "/lib"@,
        "/lib64"@,
        "/opt"@,
        "/proc"@,
        "/root"@,
        "/run"@,
        "/sbin"@,
        "/sys"@,
        "/tmp"@,
        "/usr"@,
        "/var"@,
    ]
}

/// A deletion target that must not be removed: a system directory, anything
/// in the kernel's virtual filesystems, the working directory or one of its
/// ancestors (also when the working directory is unknown), or the home
/// directory.
pub open spec fn is_protected(t: Seq<char>, env: Environment) -> bool {
    ||| exists|i: int| 0 <= i < forbidden_paths().len() && same_path(t, #[trigger] forbidden_paths()[i])
    ||| path_starts_with(t, "/proc"@)
    ||| path_starts_with(t, "/sys"@)
    ||| path_starts_with(t, "/dev"@)
    ||| env.real_cwd is None
    ||| (env.real_cwd matches Some(w) && path_starts_with(w@, t))
    ||| (env.real_home matches Some(h) && same_path(h@, t))
}

/// Whether the entry named `name` is protected; its parent is resolved once
/// more, so that the check holds for the path as it is now.
pub open spec fn protect_stage(name: Seq<char>, env: Environment, ans: Seq<Answer>, k: int) -> Stage<bool> {
    match parent(name) {
        None => Stage::Got(true, k),
        Some(p) => match canonical_stage(p, ans, k) {
            Stage::Got(Location::Found(c), k1) => match file_name(name) {
                Some(f) => Stage::Got(is_protected(join_path(c@, f), env), k1),
                None => Stage::Got(true, k1),
            },
            Stage::Got(_, k1) => Stage::Got(true, k1),
            Stage::Ask(q) => Stage::Ask(q),
            Stage::Fail(e) => Stage::Fail(e),
        },
    }
}

/// The directories whose contents count as system paths.
pub open spec fn system_roots() -> Seq<Seq<char>> {
    seq!["/etc"@, "/usr"@, "/var"@, "/boot"@, "/run"@, "/opt"@, "/bin"@, "/sbin"@, "/lib"@, "/lib64"@]
}

/// A path inside a system directory.
pub open spec fn is_system_path(name: Seq<char>) -> bool {
    exists|i: int| 0 <= i < system_roots().len() && path_starts_with(name, #[trigger] system_roots()[i])
}

/// The description shown before a deletion.
pub open spec fn delete_description(name: Seq<char>, force: bool, permanent: bool) -> Seq<char> {
    "DELETE\nОбъект: "@ + name + "\nДействие: "@ + (if permanent {
        "удалить без корзины"@
    } else {
        "переместить в корзину"@
    }) + "\nРиск: "@ + (if is_system_path(name) {
        "🟡 системный путь"@
    } else {
        "🟢 пользовательский объект"@
    }) + "\nНепустой каталог: "@ + (if force {
        "разрешён (--force)"@
    } else {
        "не разрешён"@
    })
}

/// The arguments with which a deletion is planned again before it runs.
pub open spec fn recheck_args(name: Seq<char>, force: bool, permanent: bool) -> Seq<Seq<char>> {
    let a = seq!["delete"@, name];
    let b = if force {
        a.push("--force"@)
    } else {
        a
    };
    if permanent {
        b.push("--permanent"@)
    } else {
        b
    }
}

/// The step that removes the entry: to the trash by default; with
/// `--permanent` `rm` for a file, `rmdir` for a directory, and with `--force`
/// too a recursive `rm` that stays on one filesystem.
pub open spec fn removal_step(name: Seq<char>, is_dir: bool, force: bool, permanent: bool) -> crate::command::StepView {
    if permanent {
        if is_dir {
            if force {
                tool("rm"@, seq!["-r"@, "--one-file-system"@, "--"@, name])
            } else {
                tool("rmdir"@, seq!["--"@, name])
            }
        } else {
            tool("rm"@, seq!["--"@, name])
        }
    } else {
        tool("gio"@, seq!["trash"@, "--"@, name])
    }
}

/// The plan that deletes `name`.
pub open spec fn deletion(name: Seq<char>, is_dir: bool, force: bool, permanent: bool) -> PlanView {
    PlanView {
        steps: seq![removal_step(name, is_dir, force, permanent)],
        confirm: true,
        description: Some(delete_description(name, force, permanent)),
        delete_args: Some(recheck_args(name, force, permanent)),
        ..empty_plan()
    }
}

/// Why a protected path is refused.
pub open spec fn protected_message() -> Seq<char> {
    "🔴 Удаление защищённого пути запрещено; --force не отменяет защиту"@
}

/// `delete <target> [--force] [--permanent] [--]`: the target is resolved
/// (its parent canonically, the entry itself not followed), protected paths
/// are refused whatever the options, and a non-empty directory needs `--force`.
pub open spec fn delete_plan_of(a: Seq<Seq<char>>, env: Environment, ans: Seq<Answer>) -> Next<PlanView> {
    match delete_args(a) {
        Err(e) => Next::Done(Err(e)),
        Ok(s) => match s.target {
            None => Next::Done(Err("Укажите объект: mono delete <target> [options]"@)),
            Some(t) => match resolved(t, env) {
                Err(e) => Next::Done(Err(e)),
                Ok(raw) => match parent(raw) {
                    None => Next::Done(Err("Удаление корня запрещено"@)),
                    Some(p) => match canonical_stage(p, ans, 0) {
                        Stage::Got(loc, k1) => match loc {
                            Location::Failed(e) => Next::Done(Err(e@)),
                            _ => match file_name(raw) {
                                None => Next::Done(Err("Некорректный путь удаления"@)),
                                Some(f) => match loc {
                                    Location::Found(c) => delete_target(
                                        join_path(c@, f),
                                        s.force,
                                        s.permanent,
                                        env,
                                        ans,
                                        k1,
                                    ),
                                    _ => Next::Done(Err("Путь не в UTF-8"@)),
                                },
                            },
                        },
                        st => stop(st),
                    },
                },
            },
        },
    }
}

/// The deletion of the resolved entry `name`, with `k` answers used.
pub open spec fn delete_target(name: Seq<char>, force: bool, permanent: bool, env: Environment, ans: Seq<Answer>, k: int) -> Next<PlanView> {
    match protect_stage(name, env, ans, k) {
        Stage::Got(true, _) => Next::Done(Err(protected_message())),
        Stage::Got(false, k2) => match checked_stage(QueryView::Entry(name), ans, k2) {
            Stage::Fail(e) => Next::Done(Err("Объект недоступен: "@ + e)),
            Stage::Got(is_dir, k3) => if is_dir && !force {
                match checked_stage(QueryView::DirEntries(name), ans, k3) {
                    Stage::Got(true, _) => Next::Done(Err("Каталог не пуст. Для удаления содержимого добавьте --force"@)),
                    Stage::Got(false, _) => Next::Done(Ok(deletion(name, is_dir, force, permanent))),
                    st => stop(st),
                }
            } else {
                Next::Done(Ok(deletion(name, is_dir, force, permanent)))
            },
            st => stop(st),
        },
        st => stop(st),
    }
}


/// Reads all deletion arguments.
fn read_delete_args(a: &[&str]) -> (r: Result<(bool, bool, Option<usize>), String>)
    ensures
        match r {
            Ok((force, permanent, target)) => delete_args(strs(a@)) matches Ok(s) && s.force == force
                && s.permanent == permanent && match target {
                Some(i) => i < a@.len() && s.target == Some(a@[i as int]@),
                None => s.target is None,
            },
            Err(e) => delete_args(strs(a@)) == Err::<DeleteArgs, Seq<char>>(e@),
        },
{
    let ghost av = strs(a@);
    let mut force = false;
    let mut permanent = false;
    let mut target: Option<usize> = None;
    let mut positional = false;
    let mut i: usize = 0;
    assert(av.take(0) =~= Seq::<Seq<char>>::empty());
    while i < a.len()
        invariant
            av == strs(a@),
            i <= a@.len(),
            delete_args(av.take(i as int)) matches Ok(s) && s.force == force && s.permanent
                == permanent && s.positional == positional && match target {
                Some(j) => j < i && s.target == Some(a@[j as int]@),
                None => s.target is None,
            },
        decreases a.len() - i,
    {
        let arg = a[i];
        let ac = chars_of(arg);
        assert(av.take(i + 1).drop_last() =~= av.take(i as int));
        assert(av.take(i + 1).last() == arg@);
        if word_of(arg, "--") && !positional {
            positional = true;
        } else if word_of(arg, "--force") && !positional {
            force = true;
        } else if word_of(arg, "--permanent") && !positional {
            permanent = true;
        } else if !positional && ac.len() > 0 && ac[0] == '-' {
            let mut m: Vec<char> = Vec::new();
            append_lit(&mut m, "Неизвестный параметр: ");
            append(&mut m, ac.as_slice());
            append_lit(&mut m, ". См. mono help delete");
            proof {
                lemma_delete_args_error(av, i as int);
            }
            return Err(string_of(m.as_slice()));
        } else if target.is_some() {
            proof {
                lemma_delete_args_error(av, i as int);
            }
            return Err(string_of(chars_of("Укажите один объект удаления").as_slice()));
        } else {
            target = Some(i);
        }
        i = i + 1;
    }
    assert(av.take(a@.len() as int) =~= av);
    Ok((force, permanent, target))
}

/// Once reading the arguments fails, it fails with the same message.
proof fn lemma_delete_args_error(a: Seq<Seq<char>>, i: int)
    requires
        0 <= i < a.len(),
        delete_args(a.take(i + 1)) is Err,
    ensures
        delete_args(a) == delete_args(a.take(i + 1)),
    decreases a.len() - i,
{
    if i + 1 < a.len() {
        assert(a.drop_last().take(i + 1) =~= a.take(i + 1));
        lemma_delete_args_error(a.drop_last(), i);
    } else {
        assert(a.take(i + 1) =~= a);
    }
}

fn word_of(a: &str, lit: &str) -> (r: bool)
    ensures
        r == (a@ == lit@),
{
    equals(chars_of(a).as_slice(), lit)
}

/// Whether any of `paths` (given as a literal list) matches `t` by `f`.
fn forbidden_of(t: &[char]) -> (r: bool)
    ensures
        r == exists|i: int| 0 <= i < forbidden_paths().len() && same_path(t@, #[trigger] forbidden_paths()[i]),
{
    let list = [
        "/",
        "/bin",
        "/boot",
        "/dev",
        "/etc",
        "/home",
        "/lib",
        "/lib64",
        "/opt",
        "/proc",
        "/root",
        "/run",
        "/sbin",
        "/sys",
        "/tmp",
        "/usr",
        "/var",
    ];
    assert(strs(list@) =~= forbidden_paths());
    let mut i: usize = 0;
    while i < 17
        invariant
            strs(list@) == forbidden_paths(),
            i <= 17,
            forall|j: int| 0 <= j < i ==> !same_path(t@, #[trigger] forbidden_paths()[j]),
        decreases 17 - i,
    {
        assert(forbidden_paths()[i as int] == list@[i as int]@);
        if same_path_of(t, chars_of(list[i]).as_slice()) {
            return true;
        }
        i = i + 1;
    }
    false
}

/// Whether a deletion target is protected.
fn protected_of(t: &[char], env: &Environment) -> (r: bool)
    ensures
        r == is_protected(t@, *env),
{
    if forbidden_of(t) || path_starts_with_of(t, chars_of("/proc").as_slice())
        || path_starts_with_of(t, chars_of("/sys").as_slice()) || path_starts_with_of(
        t,
        chars_of("/dev").as_slice(),
    ) {
        return true;
    }
    let w = match &env.real_cwd {
        None => return true,
        Some(w) => w,
    };
    if path_starts_with_of(chars_of(w.as_str()).as_slice(), t) {
        return true;
    }
    match &env.real_home {
        Some(h) => same_path_of(chars_of(h.as_str()).as_slice(), t),
        None => false,
    }
}

/// Takes a `Canonical` answer.
fn ask_canonical<'a>(p: &[char], answers: &'a Vec<Answer>, k: &mut usize) -> (r: Result<&'a Location, Progress<bool>>)
    ensures
        match r {
            Ok(l) => canonical_stage(p@, answers@, *old(k) as int) == Stage::<Location>::Got(*l, *final(k) as int),
            Err(pr) => match canonical_stage(p@, answers@, *old(k) as int) {
                Stage::Ask(q) => pr matches Progress::Ask(x) && x@ == q,
                Stage::Fail(e) => pr matches Progress::Fail(m) && m@ == e,
                Stage::Got(_, _) => false,
            },
        },
{
    match take_answer(answers, k) {
        None => Err(Progress::Ask(Query::Canonical(string_of(p)))),
        Some(Answer::Location(l)) => Ok(l),
        Some(_) => Err(Progress::Fail(mismatch_text())),
    }
}

/// Whether the entry named `name` is protected.
fn protect(name: &[char], env: &Environment, answers: &Vec<Answer>, k: &mut usize) -> (r: Progress<bool>)
    ensures
        agrees(r, protect_stage(name@, *env, answers@, *old(k) as int), *final(k) as int),
{
    let p = match parent_of(name) {
        None => return Progress::Got(true),
        Some(p) => p,
    };
    let loc = match ask_canonical(p.as_slice(), answers, k) {
        Ok(l) => l,
        Err(pr) => return pr,
    };
    match loc {
        Location::Found(c) => match file_name_of(name) {
            Some(f) => {
                let t = join_path_of(chars_of(c.as_str()).as_slice(), f.as_slice());
                Progress::Got(protected_of(t.as_slice(), env))
            },
            None => Progress::Got(true),
        },
        _ => Progress::Got(true),
    }
}

/// Whether a path lies in a system directory.
fn system_of(name: &[char]) -> (r: bool)
    ensures
        r == is_system_path(name@),
{
    let list = ["/etc", "/usr", "/var", "/boot", "/run", "/opt", "/bin", "/sbin", "/lib", "/lib64"];
    assert(strs(list@) =~= system_roots());
    let mut i: usize = 0;
    while i < 10
        invariant
            strs(list@) == system_roots(),
            i <= 10,
            forall|j: int| 0 <= j < i ==> !path_starts_with(name@, #[trigger] system_roots()[j]),
        decreases 10 - i,
    {
        assert(system_roots()[i as int] == list@[i as int]@);
        if path_starts_with_of(name, chars_of(list[i]).as_slice()) {
            return true;
        }
        i = i + 1;
    }
    false
}

/// The plan that deletes `name`.
fn deletion_of(name: &[char], is_dir: bool, force: bool, permanent: bool) -> (r: Plan)
    ensures
        r@ == deletion(name@, is_dir, force, permanent),
{
    let ns = string_of(name);
    let mut p = Plan::default();
    if permanent {
        if is_dir {
            if force {
                let arr = ["-r", "--one-file-system", "--", ns.as_str()];
                assert(strs(arr@) =~= seq!["-r"@, "--one-file-system"@, "--"@, name@]);
                p.add("rm", &arr);
            } else {
                let arr = ["--", ns.as_str()];
                assert(strs(arr@) =~= seq!["--"@, name@]);
                p.add("rmdir", &arr);
            }
        } else {
            let arr = ["--", ns.as_str()];
            assert(strs(arr@) =~= seq!["--"@, name@]);
            p.add("rm", &arr);
        }
    } else {
        let arr = ["trash", "--", ns.as_str()];
        assert(strs(arr@) =~= seq!["trash"@, "--"@, name@]);
        p.add("gio", &arr);
    }
    p.confirm = true;
    let mut d: Vec<char> = Vec::new();
    append_lit(&mut d, "DELETE\nОбъект: ");
    append(&mut d, name);
    append_lit(&mut d, "\nДействие: ");
    if permanent {
        append_lit(&mut d, "удалить без корзины");
    } else {
        append_lit(&mut d, "переместить в корзину");
    }
    append_lit(&mut d, "\nРиск: ");
    if system_of(name) {
        append_lit(&mut d, "🟡 системный путь");
    } else {
        append_lit(&mut d, "🟢 пользовательский объект");
    }
    append_lit(&mut d, "\nНепустой каталог: ");
    if force {
        append_lit(&mut d, "разрешён (--force)");
    } else {
        append_lit(&mut d, "не разрешён");
    }
    assert(d@ =~= delete_description(name@, force, permanent));
    p.description = Some(string_of(d.as_slice()));
    let mut again: Vec<String> = Vec::new();
    let s1 = string_of(chars_of("delete").as_slice());
    proof {
        lemma_views_push(again@, s1);
    }
    again.push(s1);
    let s2 = string_of(name);
    proof {
        lemma_views_push(again@, s2);
    }
    again.push(s2);
    if force {
        let s3 = string_of(chars_of("--force").as_slice());
        proof {
            lemma_views_push(again@, s3);
        }
        again.push(s3);
    }
    if permanent {
        let s4 = string_of(chars_of("--permanent").as_slice());
        proof {
            lemma_views_push(again@, s4);
        }
        again.push(s4);
    }
    assert(views(again@) =~= recheck_args(name@, force, permanent));
    p.delete_args = Some(again);
    assert(p@ =~= deletion(name@, is_dir, force, permanent));
    p
}

/// The deletion of the resolved entry `name`.
fn plan_delete_target(name: &[char], force: bool, permanent: bool, env: &Environment, answers: &Vec<Answer>, k: &mut usize) -> (r: Outcome<Plan>)
    ensures
        r@ == delete_target(name@, force, permanent, *env, answers@, *old(k) as int),
{
    let protected = match protect(name, env, answers, k) {
        Progress::Got(b) => b,
        Progress::Ask(q) => return Outcome::Need(q),
        Progress::Fail(e) => return Outcome::Done(Err(e)),
    };
    if protected {
        return Outcome::Done(Err(string_of(chars_of("🔴 Удаление защищённого пути запрещено; --force не отменяет защиту").as_slice())));
    }
    let ns = string_of(name);
    let is_dir = match ask_checked(Query::Entry(ns.clone()), answers, k) {
        Progress::Got(b) => b,
        Progress::Ask(q) => return Outcome::Need(q),
        Progress::Fail(e) => {
            let mut m: Vec<char> = Vec::new();
            append_lit(&mut m, "Объект недоступен: ");
            append(&mut m, chars_of(e.as_str()).as_slice());
            return Outcome::Done(Err(string_of(m.as_slice())));
        },
    };
    if is_dir && !force {
        let full = match ask_checked(Query::DirEntries(ns.clone()), answers, k) {
            Progress::Got(b) => b,
            Progress::Ask(q) => return Outcome::Need(q),
            Progress::Fail(e) => return Outcome::Done(Err(e)),
        };
        if full {
            return Outcome::Done(Err(string_of(chars_of("Каталог не пуст. Для удаления содержимого добавьте --force").as_slice())));
        }
    }
    Outcome::Done(Ok(deletion_of(name, is_dir, force, permanent)))
}

/// Plans `delete <args>` (the words after `delete`).
pub fn delete_plan(a: &[&str], env: &Environment, answers: &Vec<Answer>) -> (r: Outcome<Plan>)
    ensures
        r@ == delete_plan_of(strs(a@), *env, answers@),
{
    let (force, permanent, target) = match read_delete_args(a) {
        Ok(x) => x,
        Err(e) => return Outcome::Done(Err(e)),
    };
    let t = match target {
        None => return Outcome::Done(Err(string_of(chars_of("Укажите объект: mono delete <target> [options]").as_slice()))),
        Some(i) => a[i],
    };
    let raw = match resolve(chars_of(t).as_slice(), env) {
        Ok(p) => p,
        Err(e) => return Outcome::Done(Err(e)),
    };
    let p = match parent_of(raw.as_slice()) {
        None => return Outcome::Done(Err(string_of(chars_of("Удаление корня запрещено").as_slice()))),
        Some(p) => p,
    };
    let mut k: usize = 0;
    let loc = match ask_canonical(p.as_slice(), answers, &mut k) {
        Ok(l) => l,
        Err(Progress::Ask(q)) => return Outcome::Need(q),
        Err(Progress::Fail(e)) => return Outcome::Done(Err(e)),
        Err(Progress::Got(_)) => return Outcome::Done(Err(mismatch_text())),
    };
    if let Location::Failed(e) = loc {
        return Outcome::Done(Err(e.clone()));
    }
    let f = match file_name_of(raw.as_slice()) {
        None => return Outcome::Done(Err(string_of(chars_of("Некорректный путь удаления").as_slice()))),
        Some(f) => f,
    };
    match loc {
        Location::Found(c) => {
            let name = join_path_of(chars_of(c.as_str()).as_slice(), f.as_slice());
            plan_delete_target(name.as_slice(), force, permanent, env, answers, &mut k)
        },
        _ => Outcome::Done(Err(string_of(chars_of("Путь не в UTF-8").as_slice()))),
    }
}


/// Whether a swap area listed in `ls` is the device `d`.
pub open spec fn swap_stage(ls: Seq<Seq<char>>, d: Seq<char>, ans: Seq<Answer>, k: int) -> Stage<()>
    decreases ls.len(),
{
    if ls.len() == 0 {
        Stage::Got((), k)
    } else {
        let ws = words(ls[0]);
        if ws.len() == 0 {
            swap_stage(ls.drop_first(), d, ans, k)
        } else {
            match canonical_stage(ws[0], ans, k) {
                Stage::Got(loc, k1) => if loc matches Location::Found(c) && same_path(c@, d) {
                    Stage::Fail("Partition is active swap"@)
                } else {
                    swap_stage(ls.drop_first(), d, ans, k1)
                },
                Stage::Ask(q) => Stage::Ask(q),
                Stage::Fail(e) => Stage::Fail(e),
            }
        }
    }
}

/// The checks right before a device is formatted: it must be a partition,
/// not mounted, not an active swap area, and without holders.
pub open spec fn format_check(name: Seq<char>, ans: Seq<Answer>) -> Next<()> {
    match device_stage(name, ans, 0) {
        Stage::Got(d, k1) => match output_stage("/usr/bin/lsblk"@, seq!["-dnro"@, "TYPE"@, "--"@, d], ans, k1) {
            Stage::Got(kind, k2) => if kind != "part"@ {
                Next::Done(Err(
                    "Formatting is restricted to partitions; whole disks, loop devices and mapped volumes are refused"@,
                ))
            } else {
                match output_stage("/usr/bin/lsblk"@, seq!["-nro"@, "MOUNTPOINTS"@, "--"@, d], ans, k2) {
                    Stage::Got(m, k3) => if trim(m).len() > 0 {
                        Next::Done(Err("Partition or child device is mounted/in use (including swap)"@))
                    } else {
                        match text_stage(QueryView::ReadFile("/proc/swaps"@), ans, k3) {
                            Stage::Got(sw, k4) => match swap_stage(crate::evaluate::after_header(lines(sw)), d, ans, k4) {
                                Stage::Got(_, k5) => match file_name(d) {
                                    None => Next::Done(Err("Invalid device"@)),
                                    Some(b) => match checked_stage(
                                        QueryView::DirEntries(join_path(join_path("/sys/class/block"@, b), "holders"@)),
                                        ans,
                                        k5,
                                    ) {
                                        Stage::Got(true, _) => Next::Done(Err("Partition has active device-mapper/RAID holders"@)),
                                        Stage::Got(false, _) => Next::Done(Ok(())),
                                        st => stop(st),
                                    },
                                },
                                st => stop(st),
                            },
                            st => stop(st),
                        }
                    },
                    st => stop(st),
                }
            },
            st => stop(st),
        },
        st => stop(st),
    }
}

/// A stage that did not yield, as a finished outcome.
fn halt_unit<T>(r: Progress<T>) -> (o: Outcome<()>)
    requires
        !(r is Got),
    ensures
        match r {
            Progress::Ask(q) => o@ == Next::<()>::Need(q@),
            Progress::Fail(e) => o@ == Next::<()>::Done(Err(e@)),
            _ => true,
        },
{
    match r {
        Progress::Ask(q) => Outcome::Need(q),
        Progress::Fail(e) => Outcome::Done(Err(e)),
        Progress::Got(_) => Outcome::Done(Err(mismatch_text())),
    }
}

/// Whether an active swap area listed in `/proc/swaps` is the device `d`.
fn check_swaps(swaps: &str, d: &[char], answers: &Vec<Answer>, k: &mut usize) -> (r: Progress<()>)
    ensures
        agrees(r, swap_stage(crate::evaluate::after_header(lines(swaps@)), d@, answers@, *old(k) as int), *final(k) as int),
{
    let ls = lines_of(chars_of(swaps).as_slice());
    let ghost body = crate::evaluate::after_header(texts(ls@));
    let mut i: usize = if ls.len() > 0 {
        1
    } else {
        0
    };
    assert(texts(ls@).skip(i as int) =~= body);
    let ghost k0 = *k as int;
    while i < ls.len()
        invariant
            i <= ls@.len(),
            body == crate::evaluate::after_header(lines(swaps@)),
            texts(ls@) == lines(swaps@),
            k0 == *old(k) as int,
            swap_stage(body, d@, answers@, k0) == swap_stage(texts(ls@).skip(i as int), d@, answers@, *k as int),
        decreases ls.len() - i,
    {
        let ghost rest = texts(ls@).skip(i as int);
        assert(rest[0] == ls@[i as int]@);
        assert(rest.drop_first() =~= texts(ls@).skip(i + 1));
        let ws = words_of(ls[i].as_slice());
        if ws.len() > 0 {
            assert(words(rest[0])[0] == ws@[0]@);
            let loc = match ask_canonical(ws[0].as_slice(), answers, k) {
                Ok(l) => l,
                Err(Progress::Ask(q)) => return Progress::Ask(q),
                Err(Progress::Fail(e)) => return Progress::Fail(e),
                Err(Progress::Got(_)) => return Progress::Fail(mismatch_text()),
            };
            if let Location::Found(c) = loc {
                if same_path_of(chars_of(c.as_str()).as_slice(), d) {
                    return Progress::Fail(string_of(chars_of("Partition is active swap").as_slice()));
                }
            }
        }
        i = i + 1;
    }
    assert(texts(ls@).skip(ls@.len() as int) =~= Seq::<Seq<char>>::empty());
    Progress::Got(())
}

/// Checks, right before formatting, that `name` is an unused partition.
pub fn validate_format(name: &str, answers: &Vec<Answer>) -> (r: Outcome<()>)
    ensures
        r@ == format_check(name@, answers@),
{
    let mut k: usize = 0;
    let d = match device(name, answers, &mut k) {
        Progress::Got(d) => d,
        r => return halt_unit(r),
    };
    let a1 = ["-dnro", "TYPE", "--", d.as_str()];
    assert(strs(a1@) =~= seq!["-dnro"@, "TYPE"@, "--"@, d@]);
    let kind = match ask_output("/usr/bin/lsblk", &a1, answers, &mut k) {
        Progress::Got(t) => t,
        r => return halt_unit(r),
    };
    if !equals(chars_of(kind.as_str()).as_slice(), "part") {
        return Outcome::Done(Err(string_of(chars_of("Formatting is restricted to partitions; whole disks, loop devices and mapped volumes are refused").as_slice())));
    }
    let a2 = ["-nro", "MOUNTPOINTS", "--", d.as_str()];
    assert(strs(a2@) =~= seq!["-nro"@, "MOUNTPOINTS"@, "--"@, d@]);
    let mounts = match ask_output("/usr/bin/lsblk", &a2, answers, &mut k) {
        Progress::Got(t) => t,
        r => return halt_unit(r),
    };
    if trim_of(chars_of(mounts.as_str()).as_slice()).len() > 0 {
        return Outcome::Done(Err(string_of(chars_of("Partition or child device is mounted/in use (including swap)").as_slice())));
    }
    let swaps = match ask_text(Query::ReadFile(string_of(chars_of("/proc/swaps").as_slice())), answers, &mut k) {
        Progress::Got(t) => t,
        r => return halt_unit(r),
    };
    let dc = chars_of(d.as_str());
    match check_swaps(swaps.as_str(), dc.as_slice(), answers, &mut k) {
        Progress::Got(()) => {},
        r => return halt_unit(r),
    }
    let b = match file_name_of(dc.as_slice()) {
        None => return Outcome::Done(Err(string_of(chars_of("Invalid device").as_slice()))),
        Some(b) => b,
    };
    let base = join_path_of(chars_of("/sys/class/block").as_slice(), b.as_slice());
    let holders = join_path_of(base.as_slice(), chars_of("holders").as_slice());
    let full = match ask_checked(Query::DirEntries(string_of(holders.as_slice())), answers, &mut k) {
        Progress::Got(b) => b,
        r => return halt_unit(r),
    };
    if full {
        return Outcome::Done(Err(string_of(chars_of("Partition has active device-mapper/RAID holders").as_slice())));
    }
    Outcome::Done(Ok(()))
}

} // verus!
