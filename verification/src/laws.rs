//! Properties of the library as a whole, stated over the models that the
//! functions' contracts use, and proved.

use vstd::prelude::*;
use crate::checks::{escaped, is_pattern_char, process_pattern_of};
use crate::capabilities::valid_package_name;
use crate::command::{plan_lines, tool, PlanView, StepView};
use crate::commands::{
    check_plan, chmod_plan, chown_plan, clean_plan, connect_plan, create_plan, delete_user_plan,
    disconnect_plan, dns_plan, enablement_plan, find_plan, format_plan, info_plan, ip_plan,
    kill_plan, lifecycle_plan, list_plan, lock_plan, logs_plan, mount_plan, network_plan,
    open_plan, package_plan, ping_plan, plan_of, ports_plan, power_plan, scan_plan, search_plan,
    show_plan, status_plan, transfer_plan, usage_plan,
};
use crate::diagnostics::{all_sections, is_problem, section_name, section_named, Health, Section};
use crate::evaluate::{network_outcome, worst};
use crate::runner::{
    act, confirm_phase, execution, expected_answer, format_phase, tools_phase, EffectView, Event,
    Phase,
};
use crate::cli::{check_report, dry_run_scan, probe_of, Attempt, ProbeView};
use crate::numbers::{all_digits, unsigned_value};
use crate::paths::{components, file_name, join_path, named, parent, path_starts_with};
use crate::probe::{
    canonical_stage, checked_stage, mismatch, resolved, Answer, Environment, Location, Next, Stage,
};
use crate::removal::{
    delete_arg, delete_args, delete_plan_of, delete_target, deletion, is_protected, protect_stage,
    protected_message, DeleteArgs,
};
use crate::text::{lemma_split_nonempty, split, starts_with, trim};

verus! {

/// The one text that a process name pattern matches when it is read as a
/// regular expression, or `None` when the pattern still holds a special
/// character that is not escaped (or a backslash that escapes nothing special).
pub open spec fn pattern_literal(t: Seq<char>) -> Option<Seq<char>>
    decreases t.len(),
{
    if t.len() == 0 {
        Some(Seq::empty())
    } else if t[0] == '\\' {
        if t.len() >= 2 && is_pattern_char(t[1]) {
            match pattern_literal(t.skip(2)) {
                Some(r) => Some(seq![t[1]] + r),
                None => None,
            }
        } else {
            None
        }
    } else if is_pattern_char(t[0]) {
        None
    } else {
        match pattern_literal(t.skip(1)) {
            Some(r) => Some(seq![t[0]] + r),
            None => None,
        }
    }
}

proof fn lemma_escaped_concat(a: Seq<char>, b: Seq<char>)
    ensures
        escaped(a + b) == escaped(a) + escaped(b),
    decreases b.len(),
{
    if b.len() == 0 {
        assert(a + b =~= a);
        assert(escaped(b) =~= Seq::<char>::empty());
        assert(escaped(a) + escaped(b) =~= escaped(a));
    } else {
        lemma_escaped_concat(a, b.drop_last());
        assert((a + b).drop_last() =~= a + b.drop_last());
        assert((a + b).last() == b.last());
        let tail = if is_pattern_char(b.last()) {
            seq!['\\', b.last()]
        } else {
            seq![b.last()]
        };
        assert(escaped(a + b) == escaped(a + b.drop_last()) + tail);
        assert(escaped(b) == escaped(b.drop_last()) + tail);
        assert(escaped(a) + escaped(b) =~= escaped(a) + escaped(b.drop_last()) + tail);
    }
}

proof fn lemma_pattern_literal_escaped(s: Seq<char>)
    ensures
        pattern_literal(escaped(s)) == Some(s),
    decreases s.len(),
{
    if s.len() == 0 {
        assert(escaped(s) =~= Seq::<char>::empty());
    } else {
        let c = s[0];
        let rest = s.skip(1);
        assert(s =~= seq![c] + rest);
        lemma_escaped_concat(seq![c], rest);
        lemma_pattern_literal_escaped(rest);
        assert(seq![c].drop_last() =~= Seq::<char>::empty());
        assert(escaped(Seq::<char>::empty()) =~= Seq::<char>::empty());
        reveal_strlit(".^$*+?()[]{}|\\");
        assert(is_pattern_char('\\')) by {
            assert(".^$*+?()[]{}|\\"@[13] == '\\');
        }
        let t = escaped(s);
        if is_pattern_char(c) {
            assert(escaped(seq![c]) =~= seq!['\\', c]);
            assert(t =~= seq!['\\', c] + escaped(rest));
            assert(t.skip(2) =~= escaped(rest));
            assert(seq![c] + rest =~= s);
        } else {
            assert(escaped(seq![c]) =~= seq![c]);
            assert(t =~= seq![c] + escaped(rest));
            assert(t.skip(1) =~= escaped(rest));
            assert(c != '\\');
        }
    }
}

/// Process names are matched literally: the pattern made from a name has no
/// special character left unescaped, and the one text it matches is the name.
pub proof fn law_process_patterns_are_literal(name: Seq<char>)
    ensures
        match process_pattern_of(name) {
            Ok(pattern) => pattern_literal(pattern) == Some(name),
            Err(_) => true,
        },
{
    lemma_pattern_literal_escaped(name);
}


/// Whether an answer reports a failure with the text `msg`.
pub open spec fn reports(a: Answer, msg: Seq<char>) -> bool {
    match a {
        Answer::Checked(Err(e)) => e@ == msg,
        _ => false,
    }
}

proof fn lemma_deletion_target(name: Seq<char>, force: bool, permanent: bool, env: Environment, ans: Seq<Answer>, k: int)
    ensures
        delete_target(name, force, permanent, env, ans, k) matches Next::Done(Ok(p)) ==> exists|is_dir: bool|
            p == deletion(name, is_dir, force, permanent),
{
    match protect_stage(name, env, ans, k) {
        Stage::Got(false, k2) => match checked_stage(crate::probe::QueryView::Entry(name), ans, k2) {
            Stage::Got(is_dir, k3) => {
                if let Next::Done(Ok(p)) = delete_target(name, force, permanent, env, ans, k) {
                    assert(p == deletion(name, is_dir, force, permanent));
                }
            },
            _ => {},
        },
        _ => {},
    }
}

/// Deletion goes to the trash unless `--permanent` is given. Every deletion
/// plan removes one resolved entry with the options as given, is confirmed
/// before it runs, and carries the arguments with which it is planned once
/// more right before it runs; without `--permanent` its one step moves the
/// entry to the trash.
pub proof fn law_deletion_defaults_to_trash(a: Seq<Seq<char>>, env: Environment, ans: Seq<Answer>)
    ensures
        delete_plan_of(a, env, ans) matches Next::Done(Ok(p)) ==> delete_args(a) matches Ok(s)
            && exists|name: Seq<char>, is_dir: bool|
            {
                &&& p == deletion(name, is_dir, s.force, s.permanent)
                &&& p.confirm
                &&& p.delete_args is Some
                &&& !s.permanent ==> p.steps == seq![tool("gio"@, seq!["trash"@, "--"@, name])]
            },
{
    if let Ok(s) = delete_args(a) {
        if let Some(t) = s.target {
            if let Ok(raw) = resolved(t, env) {
                if let Some(pp) = parent(raw) {
                    if let Stage::Got(Location::Found(c), k1) = canonical_stage(pp, ans, 0) {
                        if let Some(f) = file_name(raw) {
                            let name = join_path(c@, f);
                            lemma_deletion_target(name, s.force, s.permanent, env, ans, k1);
                            if let Next::Done(Ok(p)) = delete_plan_of(a, env, ans) {
                                let is_dir = choose|is_dir: bool| p == deletion(name, is_dir, s.force, s.permanent);
                                assert(p == deletion(name, is_dir, s.force, s.permanent));
                                if !s.permanent {
                                    assert(p.steps =~= seq![tool("gio"@, seq!["trash"@, "--"@, name])]);
                                }
                            }
                        }
                    }
                }
            }
        }
    }
}

proof fn lemma_force_at_target(name: Seq<char>, permanent: bool, env: Environment, ans: Seq<Answer>, k: int)
    requires
        forall|i: int| 0 <= i < ans.len() ==> !reports(#[trigger] ans[i], protected_message()),
    ensures
        (delete_target(name, false, permanent, env, ans, k) == Next::<PlanView>::Done(Err(protected_message())))
            <==> (protect_stage(name, env, ans, k) matches Stage::Got(b, _) && b),
        (delete_target(name, true, permanent, env, ans, k) == Next::<PlanView>::Done(Err(protected_message())))
            <==> (protect_stage(name, env, ans, k) matches Stage::Got(b, _) && b),
{
    reveal_strlit("🔴 Удаление защищённого пути запрещено; --force не отменяет защиту");
    reveal_strlit("Unexpected answer to a system query");
    reveal_strlit("Объект недоступен: ");
    reveal_strlit("Каталог не пуст. Для удаления содержимого добавьте --force");
    let pm = protected_message();
    assert(mismatch() != pm) by {
        assert(mismatch()[0] != pm[0]);
    }
    match protect_stage(name, env, ans, k) {
        Stage::Got(false, k2) => match checked_stage(crate::probe::QueryView::Entry(name), ans, k2) {
            Stage::Fail(e) => {
                assert(("Объект недоступен: "@ + e)[0] != pm[0]);
            },
            Stage::Got(is_dir, k3) => {
                assert("Каталог не пуст. Для удаления содержимого добавьте --force"@ != pm) by {
                    assert("Каталог не пуст. Для удаления содержимого добавьте --force"@[0] != pm[0]);
                }
                match checked_stage(crate::probe::QueryView::DirEntries(name), ans, k3) {
                    Stage::Fail(e) => {
                        if 0 <= k3 < ans.len() {
                            assert(!reports(ans[k3], pm));
                        }
                    },
                    _ => {},
                }
            },
            _ => {},
        },
        Stage::Fail(e) => {
            if 0 <= k < ans.len() {
                assert(!reports(ans[k], pm));
            }
        },
        _ => {},
    }
}

/// `--force` never lifts the protection of a path: as long as no answer of
/// the system reports a failure in the very words of that refusal, a deletion
/// is refused as protected exactly when the same deletion with `--force`
/// added is.
pub proof fn law_force_keeps_protection(a: Seq<Seq<char>>, env: Environment, ans: Seq<Answer>)
    requires
        delete_args(a) matches Ok(s) && !s.positional,
        forall|i: int| 0 <= i < ans.len() ==> !reports(#[trigger] ans[i], protected_message()),
    ensures
        (delete_plan_of(a, env, ans) == Next::<PlanView>::Done(Err(protected_message())))
            <==> (delete_plan_of(a.push("--force"@), env, ans) == Next::<PlanView>::Done(
            Err(protected_message()),
        )),
{
    let s = delete_args(a)->Ok_0;
    let b = a.push("--force"@);
    assert(b.drop_last() =~= a);
    reveal_strlit("--");
    reveal_strlit("--force");
    assert("--force"@ != "--"@) by {
        assert("--force"@.len() != "--"@.len());
    }
    assert(delete_args(b) == delete_arg(s, "--force"@));
    assert(delete_args(b) == Ok::<DeleteArgs, Seq<char>>(DeleteArgs { force: true, ..s }));
    if let Some(t) = s.target {
        if let Ok(raw) = resolved(t, env) {
            if let Some(pp) = parent(raw) {
                if let Stage::Got(Location::Found(c), k1) = canonical_stage(pp, ans, 0) {
                    if let Some(f) = file_name(raw) {
                        let name = join_path(c@, f);
                        lemma_force_at_target(name, s.permanent, env, ans, k1);
                        if s.force {
                            assert(DeleteArgs { force: true, ..s } == s);
                        }
                    }
                }
            }
        }
    }
}

/// Which planning function a command line reaches, for the commands the laws
/// below speak of.
proof fn lemma_dispatch(a: Seq<Seq<char>>, env: Environment, ans: Seq<Answer>)
    requires
        a.len() > 0,
    ensures
        a[0] == "delete"@ && a.len() >= 2 && a[1] == "user"@ ==> plan_of(a, env, ans) == delete_user_plan(a, ans),
        a[0] == "create"@ ==> plan_of(a, env, ans) == create_plan(a, env, ans),
        a[0] == "permissions"@ && a.len() == 3 ==> plan_of(a, env, ans) == chmod_plan(a, env),
        a[0] == "owner"@ && a.len() == 3 ==> plan_of(a, env, ans) == chown_plan(a, env),
        a[0] == "search"@ ==> plan_of(a, env, ans) == search_plan(a),
        a[0] == "install"@ || a[0] == "uninstall"@ || a[0] == "update"@ ==> plan_of(a, env, ans) == package_plan(a),
        a[0] == "stop"@ || a[0] == "restart"@ ==> plan_of(a, env, ans) == lifecycle_plan(a, ans),
        a[0] == "enable"@ || a[0] == "disable"@ ==> plan_of(a, env, ans) == enablement_plan(a),
        a[0] == "kill"@ ==> plan_of(a, env, ans) == kill_plan(a, env),
        a[0] == "connect"@ ==> plan_of(a, env, ans) == connect_plan(a, ans),
        a[0] == "disconnect"@ ==> plan_of(a, env, ans) == disconnect_plan(a, ans),
        a[0] == "ip"@ ==> plan_of(a, env, ans) == ip_plan(a, ans),
        a[0] == "dns"@ ==> plan_of(a, env, ans) == dns_plan(a, ans),
        a[0] == "mount"@ || a[0] == "unmount"@ ==> plan_of(a, env, ans) == mount_plan(a, ans),
        a[0] == "format"@ ==> plan_of(a, env, ans) == format_plan(a, ans),
        a[0] == "reboot"@ || a[0] == "shutdown"@ || a[0] == "sleep"@ ==> plan_of(a, env, ans) == power_plan(a),
        a[0] == "status"@ ==> plan_of(a, env, ans) == status_plan(a),
        a[0] == "info"@ ==> plan_of(a, env, ans) == info_plan(a, env, ans),
        a[0] == "list"@ || a[0] == "disks"@ ==> plan_of(a, env, ans) == list_plan(a),
        a[0] == "copy"@ || a[0] == "move"@ ==> plan_of(a, env, ans) == transfer_plan(a, env),
        a[0] == "find"@ ==> plan_of(a, env, ans) == find_plan(a, env),
        a[0] == "read"@ ==> plan_of(a, env, ans) == show_plan(a, env),
        (a[0] == "permissions"@ || a[0] == "owner"@) && a.len() != 3 ==> plan_of(a, env, ans) == show_plan(a, env),
        a[0] == "open"@ ==> plan_of(a, env, ans) == open_plan(a, env, ans),
        a[0] == "clean"@ ==> plan_of(a, env, ans) == clean_plan(a),
        a[0] == "start"@ ==> plan_of(a, env, ans) == lifecycle_plan(a, ans),
        a[0] == "usage"@ ==> plan_of(a, env, ans) == usage_plan(a, env, ans),
        a[0] == "check"@ ==> plan_of(a, env, ans) == check_plan(a, ans),
        a[0] == "logs"@ ==> plan_of(a, env, ans) == logs_plan(a),
        a[0] == "scan"@ ==> plan_of(a, env, ans) == scan_plan(a),
        a[0] == "ping"@ ==> plan_of(a, env, ans) == ping_plan(a),
        a[0] == "network"@ ==> plan_of(a, env, ans) == network_plan(a),
        a[0] == "ports"@ ==> plan_of(a, env, ans) == ports_plan(a),
        a[0] == "lock"@ ==> plan_of(a, env, ans) == lock_plan(a, env),
{
    reveal_strlit("check");
    reveal_strlit("clean");
    reveal_strlit("connect");
    reveal_strlit("copy");
    reveal_strlit("create");
    reveal_strlit("delete");
    reveal_strlit("disable");
    reveal_strlit("disconnect");
    reveal_strlit("disks");
    reveal_strlit("dns");
    reveal_strlit("edit");
    reveal_strlit("enable");
    reveal_strlit("find");
    reveal_strlit("format");
    reveal_strlit("info");
    reveal_strlit("install");
    reveal_strlit("ip");
    reveal_strlit("kill");
    reveal_strlit("list");
    reveal_strlit("lock");
    reveal_strlit("logs");
    reveal_strlit("mount");
    reveal_strlit("move");
    reveal_strlit("network");
    reveal_strlit("open");
    reveal_strlit("owner");
    reveal_strlit("permissions");
    reveal_strlit("ping");
    reveal_strlit("ports");
    reveal_strlit("read");
    reveal_strlit("reboot");
    reveal_strlit("restart");
    reveal_strlit("scan");
    reveal_strlit("search");
    reveal_strlit("shutdown");
    reveal_strlit("sleep");
    reveal_strlit("start");
    reveal_strlit("status");
    reveal_strlit("stop");
    reveal_strlit("uninstall");
    reveal_strlit("unmount");
    reveal_strlit("update");
    reveal_strlit("usage");
    reveal_strlit("user");
    assert("copy"@[2] == 'p');
    assert("copy"@[0] == 'c');
    assert("edit"@[2] == 'i');
    assert("edit"@[0] == 'e');
    assert("find"@[2] == 'n');
    assert("find"@[0] == 'f');
    assert("info"@[2] == 'f');
    assert("info"@[0] == 'i');
    assert("kill"@[2] == 'l');
    assert("kill"@[0] == 'k');
    assert("list"@[2] == 's');
    assert("list"@[0] == 'l');
    assert("lock"@[2] == 'c');
    assert("lock"@[0] == 'l');
    assert("logs"@[2] == 'g');
    assert("logs"@[0] == 'l');
    assert("move"@[2] == 'v');
    assert("move"@[0] == 'm');
    assert("open"@[2] == 'e');
    assert("open"@[0] == 'o');
    assert("ping"@[2] == 'n');
    assert("ping"@[0] == 'p');
    assert("read"@[2] == 'a');
    assert("read"@[0] == 'r');
    assert("scan"@[2] == 'a');
    assert("scan"@[0] == 's');
    assert("stop"@[2] == 'o');
    assert("stop"@[0] == 's');
    assert("user"@[2] == 'e');
    assert("user"@[0] == 'u');
    assert("check"@[3] == 'c');
    assert("check"@[0] == 'c');
    assert("clean"@[3] == 'a');
    assert("clean"@[0] == 'c');
    assert("disks"@[3] == 'k');
    assert("disks"@[0] == 'd');
    assert("mount"@[3] == 'n');
    assert("mount"@[0] == 'm');
    assert("owner"@[3] == 'e');
    assert("owner"@[0] == 'o');
    assert("ports"@[3] == 't');
    assert("ports"@[0] == 'p');
    assert("sleep"@[3] == 'e');
    assert("sleep"@[0] == 's');
    assert("start"@[3] == 'r');
    assert("start"@[0] == 's');
    assert("usage"@[3] == 'g');
    assert("usage"@[0] == 'u');
    assert("create"@[0] == 'c');
    assert("create"@[1] == 'r');
    assert("delete"@[0] == 'd');
    assert("delete"@[1] == 'e');
    assert("enable"@[0] == 'e');
    assert("enable"@[1] == 'n');
    assert("format"@[0] == 'f');
    assert("format"@[1] == 'o');
    assert("reboot"@[0] == 'r');
    assert("reboot"@[1] == 'e');
    assert("search"@[0] == 's');
    assert("search"@[1] == 'e');
    assert("status"@[0] == 's');
    assert("status"@[1] == 't');
    assert("update"@[0] == 'u');
    assert("update"@[1] == 'p');
    assert("connect"@[0] == 'c');
    assert("disable"@[0] == 'd');
    assert("install"@[0] == 'i');
    assert("network"@[0] == 'n');
    assert("restart"@[0] == 'r');
    assert("unmount"@[0] == 'u');
}

/// Facts about the words that the laws below compare.
proof fn lemma_verbs()
    ensures
        "update"@ != "install"@,
        "update"@ != "uninstall"@,
        "install"@ != "uninstall"@,
        "start"@ != "stop"@,
        "start"@ != "restart"@,
        "user"@ != "file"@,
        "user"@ != "dir"@,
        "/usr/bin/"@ + "pacman"@ == "/usr/bin/pacman"@,
{
    reveal_strlit("update");
    reveal_strlit("install");
    reveal_strlit("uninstall");
    reveal_strlit("start");
    reveal_strlit("stop");
    reveal_strlit("restart");
    reveal_strlit("user");
    reveal_strlit("file");
    reveal_strlit("dir");
    assert("user"@[0] != "file"@[0]);
    reveal_strlit("/usr/bin/");
    reveal_strlit("pacman");
    reveal_strlit("/usr/bin/pacman");
    assert("update"@[0] != "install"@[0]);
    assert("update"@[1] != "uninstall"@[1]);
    assert("install"@[0] != "uninstall"@[0]);
    assert("start"@[2] != "stop"@[2]);
    assert("/usr/bin/"@ + "pacman"@ =~= "/usr/bin/pacman"@);
}

/// The command lines that change the system in ways not simply taken back:
/// power actions, ending processes, deletions, creating user accounts,
/// changing modes or owners, stopping or restarting programs and services,
/// enabling or disabling services, Wi-Fi and Bluetooth links, address and
/// DNS changes, mounting, unmounting and formatting.
pub open spec fn destructive(a: Seq<Seq<char>>) -> bool {
    &&& a.len() > 0
    &&& {
        let w = a[0];
        ||| w == "reboot"@ || w == "shutdown"@ || w == "sleep"@
        ||| w == "kill"@ || w == "delete"@
        ||| w == "create"@ && a.len() == 3 && a[1] == "user"@
        ||| (w == "permissions"@ || w == "owner"@) && a.len() == 3
        ||| w == "stop"@ || w == "restart"@ || w == "enable"@ || w == "disable"@
        ||| w == "connect"@ || w == "disconnect"@
        ||| w == "ip"@ && a.len() == 4
        ||| w == "dns"@ && a.len() == 3
        ||| w == "mount"@ || w == "unmount"@ || w == "format"@
    }
}

/// Destructive actions require confirmation: every plan made for such a
/// command line asks the user to confirm before it runs.
pub proof fn law_destructive_plans_are_confirmed(a: Seq<Seq<char>>, env: Environment, ans: Seq<Answer>)
    requires
        destructive(a),
    ensures
        plan_of(a, env, ans) matches Next::Done(Ok(p)) ==> p.confirm,
{
    lemma_dispatch(a, env, ans);
    lemma_verbs();
    if a[0] == "delete"@ && !(a.len() >= 2 && a[1] == "user"@) {
        law_deletion_defaults_to_trash(a.drop_first(), env, ans);
    }
}

/// Updates are full system upgrades: an `update` plan always runs
/// `pacman -Syu`, with the named package after `--` when there is one.
pub proof fn law_updates_are_full_upgrades(a: Seq<Seq<char>>, env: Environment, ans: Seq<Answer>)
    requires
        a.len() > 0,
        a[0] == "update"@,
    ensures
        plan_of(a, env, ans) matches Next::Done(Ok(p)) ==> p.steps
            == seq![
            tool(
                "pacman"@,
                if a.len() == 1 {
                    seq!["-Syu"@]
                } else {
                    seq!["-Syu"@, "--"@, a[1]]
                },
            ),
        ],
{
    lemma_dispatch(a, env, ans);
    lemma_verbs();
}

/// Package names are never taken for options: a plan for `install`,
/// `uninstall` or `update` with a package accepts only a valid package name,
/// which never begins with `-`, and hands it to pacman as the last argument,
/// after `--`.
pub proof fn law_package_names_are_not_options(a: Seq<Seq<char>>, env: Environment, ans: Seq<Answer>)
    requires
        a.len() == 2,
        a[0] == "install"@ || a[0] == "uninstall"@ || a[0] == "update"@,
    ensures
        plan_of(a, env, ans) matches Next::Done(Ok(p)) ==> {
            &&& valid_package_name(a[1])
            &&& a[1][0] != '-'
            &&& p.steps.len() == 1
            &&& p.steps[0].program == "/usr/bin/pacman"@
            &&& p.steps[0].args.last() == a[1]
            &&& p.steps[0].args[p.steps[0].args.len() - 2] == "--"@
        },
{
    lemma_dispatch(a, env, ans);
    lemma_verbs();
}

/// Text never reaches a shell: a package search hands the whole query to
/// pacman as one argument, whatever characters it holds.
pub proof fn law_search_text_is_one_argument(query: Seq<char>, env: Environment, ans: Seq<Answer>)
    ensures
        plan_of(seq!["search"@, query], env, ans) == Next::<PlanView>::Done(
            Ok(crate::commands::run1("pacman"@, seq!["-Ss"@, "--"@, query])),
        ),
{
    let a = seq!["search"@, query];
    assert(a[0] == "search"@);
    lemma_dispatch(a, env, ans);
    lemma_verbs();
}

/// `kill` never targets process 0, process 1 or Mono itself: a numeric
/// target in a kill plan is a process id above 1 other than Mono's own.
pub proof fn law_kill_spares_init_and_self(a: Seq<Seq<char>>, env: Environment, ans: Seq<Answer>)
    requires
        a.len() == 2,
        a[0] == "kill"@,
        all_digits(a[1]),
    ensures
        plan_of(a, env, ans) matches Next::Done(Ok(p)) ==> {
            &&& p.confirm
            &&& unsigned_value(a[1]) matches Some(n) && 1 < n && n != env.pid
        },
{
    lemma_dispatch(a, env, ans);
    lemma_verbs();
}

/// A format plan formats exactly the checked device it names: a block device
/// under `/dev`, which is also the text the user must type to confirm.
pub proof fn law_format_targets_the_confirmed_device(a: Seq<Seq<char>>, env: Environment, ans: Seq<Answer>)
    requires
        a.len() > 0,
        a[0] == "format"@,
    ensures
        plan_of(a, env, ans) matches Next::Done(Ok(p)) ==> {
            &&& p.confirm
            &&& p.format_device matches Some(d) && path_starts_with(d, "/dev"@) && p.steps.len() == 1
                && p.steps[0].args == seq![d]
        },
{
    lemma_dispatch(a, env, ans);
    lemma_verbs();
}

/// Every section is found again by its own name, and the full list holds
/// each section once.
pub proof fn law_sections_are_named(s: Section)
    ensures
        section_named(section_name(s)) == Some(s),
        all_sections().contains(s),
        forall|i: int, j: int| 0 <= i < j < all_sections().len() ==> all_sections()[i] != all_sections()[j],
{
    reveal_strlit("system");
    reveal_strlit("cpu");
    reveal_strlit("memory");
    reveal_strlit("storage");
    reveal_strlit("filesystems");
    reveal_strlit("temperature");
    reveal_strlit("network");
    reveal_strlit("services");
    reveal_strlit("boot");
    reveal_strlit("hardware");
    reveal_strlit("power");
    reveal_strlit("logs");
    assert("boot"@[0] == 'b');
    assert("logs"@[0] == 'l');
    assert("system"@[0] == 's');
    assert("memory"@[0] == 'm');
    assert("storage"@[0] == 's');
    assert("network"@[0] == 'n');
    assert("services"@[0] == 's');
    assert("hardware"@[0] == 'h');
    assert("filesystems"@[0] == 'f');
    assert("temperature"@[0] == 't');
    assert("system"@.len() == 6);
    assert("cpu"@.len() == 3);
    assert("memory"@.len() == 6);
    assert("storage"@.len() == 7);
    assert("filesystems"@.len() == 11);
    assert("temperature"@.len() == 11);
    assert("network"@.len() == 7);
    assert("services"@.len() == 8);
    assert("boot"@.len() == 4);
    assert("hardware"@.len() == 8);
    assert("power"@.len() == 5);
    assert("logs"@.len() == 4);
    assert(all_sections()[0] == Section::System);
    let all = all_sections();
    assert(all.len() == 12);
    match s {
        Section::System => { assert(all[0] == s); assert(section_named(section_name(s)) == Some(s)); }
        Section::Cpu => { assert(all[1] == s); assert(section_named(section_name(s)) == Some(s)); }
        Section::Memory => { assert(all[2] == s); assert(section_named(section_name(s)) == Some(s)); }
        Section::Storage => { assert(all[3] == s); assert(section_named(section_name(s)) == Some(s)); }
        Section::Filesystems => { assert(all[4] == s); assert(section_named(section_name(s)) == Some(s)); }
        Section::Temperature => { assert(all[5] == s); assert(section_named(section_name(s)) == Some(s)); }
        Section::Network => { assert(all[6] == s); assert(section_named(section_name(s)) == Some(s)); }
        Section::Services => { assert(all[7] == s); assert(section_named(section_name(s)) == Some(s)); }
        Section::Boot => { assert(all[8] == s); assert(section_named(section_name(s)) == Some(s)); }
        Section::Hardware => { assert(all[9] == s); assert(section_named(section_name(s)) == Some(s)); }
        Section::Power => { assert(all[10] == s); assert(section_named(section_name(s)) == Some(s)); }
        Section::Logs => { assert(all[11] == s); assert(section_named(section_name(s)) == Some(s)); }
    }
}

/// The health of the storage check is the worst health among its
/// filesystems: an error when any has one, else a warning when any has one,
/// else healthy; a filesystem without a usable reading never makes it worse.
pub proof fn law_storage_health_is_the_worst(hs: Seq<Health>)
    ensures
        worst(hs) is Error <==> exists|i: int| 0 <= i < hs.len() && hs[i] is Error,
        worst(hs) is Warning <==> (forall|i: int| 0 <= i < hs.len() ==> !(hs[i] is Error)) && exists|i: int|
            0 <= i < hs.len() && hs[i] is Warning,
        worst(hs) is Good <==> forall|i: int| 0 <= i < hs.len() ==> !is_problem(hs[i]),
    decreases hs.len(),
{
    if hs.len() > 0 {
        let init = hs.drop_last();
        law_storage_health_is_the_worst(init);
        assert(forall|i: int| 0 <= i < init.len() ==> init[i] == hs[i]);
        let last = hs.len() - 1;
        if exists|i: int| 0 <= i < init.len() && init[i] is Error {
            let i = choose|i: int| 0 <= i < init.len() && init[i] is Error;
            assert(hs[i] is Error);
        }
        if exists|i: int| 0 <= i < init.len() && init[i] is Warning {
            let i = choose|i: int| 0 <= i < init.len() && init[i] is Warning;
            assert(hs[i] is Warning);
        }
        if exists|i: int| 0 <= i < hs.len() && hs[i] is Error {
            let i = choose|i: int| 0 <= i < hs.len() && hs[i] is Error;
            if i < last {
                assert(init[i] is Error);
            }
        }
        if exists|i: int| 0 <= i < hs.len() && hs[i] is Warning {
            let i = choose|i: int| 0 <= i < hs.len() && hs[i] is Warning;
            if i < last {
                assert(init[i] is Warning);
            }
        }
    }
}

/// DNS and TCP are judged apart: the network check is an error exactly when
/// name resolution failed; failed TCP probes alone are only a warning, never
/// proof of an outage, and a probe that could not run leaves the verdict
/// unknown.
pub proof fn law_network_separates_dns_from_tcp(dns: Option<bool>, tcp: bool)
    ensures
        network_outcome(dns, tcp).0 is Error <==> dns == Some(false),
        network_outcome(dns, tcp).0 is Unknown <==> dns is None,
        network_outcome(dns, tcp).0 is Good <==> dns == Some(true) && tcp,
        dns == Some(true) && !tcp ==> network_outcome(dns, tcp).0 is Warning,
{
}

/// Whether an effect runs a step of a plan: a program run or start, or a
/// file creation.
pub open spec fn runs_a_step(e: EffectView) -> bool {
    e is Run || e is Spawn || e is CreateFile
}

/// Event `k` is an interactive terminal, and the next is a typed line that,
/// trimmed, is `expected`.
pub open spec fn confirmed_at(ev: Seq<Event>, k: int, expected: Seq<char>) -> bool {
    &&& 0 <= k
    &&& k + 1 < ev.len()
    &&& match ev[k] {
        Event::Terminal(t) => t,
        _ => false,
    }
    &&& match ev[k + 1] {
        Event::Answered(Ok(line)) => trim(line@) == expected,
        _ => false,
    }
}

/// Event `k` is a successful validation of the formatting target.
pub open spec fn validated_at(ev: Seq<Event>, k: int) -> bool {
    0 <= k < ev.len() && match ev[k] {
        Event::FormatChecked(Ok(())) => true,
        _ => false,
    }
}

proof fn lemma_tools_phase_effects(steps: Seq<StepView>, i: int, ev: Seq<Event>, k: int)
    ensures
        tools_phase(steps, i, ev, k) matches Phase::Act(a) ==> !runs_a_step(a.effect),
    decreases steps.len() - i,
{
    if 0 <= i < steps.len() {
        lemma_tools_phase_effects(steps, i + 1, ev, k);
        lemma_tools_phase_effects(steps, i + 1, ev, k + 1);
    }
}

/// A dry run changes nothing: it shows the plan and stops, whatever happened.
pub proof fn law_dry_run_changes_nothing(p: PlanView, ev: Seq<Event>)
    ensures
        execution(p, true, ev) == act(plan_lines(p), EffectView::Finish(Ok(()))),
{
}

/// Nothing runs unconfirmed: once running a plan that needs confirmation
/// reaches one of its steps, the events so far hold an interactive terminal
/// followed by a typed line that, trimmed, is the expected text (the device
/// for a format, else `yes`); for a format, the device was validated once
/// more right after that.
pub proof fn law_nothing_runs_unconfirmed(p: PlanView, ev: Seq<Event>)
    requires
        p.confirm,
    ensures
        runs_a_step(execution(p, false, ev).effect) ==> exists|k: int|
            #![trigger confirmed_at(ev, k, expected_answer(p))]
            confirmed_at(ev, k, expected_answer(p)) && (p.format_device is Some ==> validated_at(ev, k + 2)),
{
    lemma_tools_phase_effects(p.steps, 0, ev, 0);
    if let Phase::Go(k1, _) = tools_phase(p.steps, 0, ev, 0) {
        if let Phase::Go(k2, _) = format_phase(p.format_device, ev, k1, Seq::empty()) {
            if let Phase::Go(k3, pending) = confirm_phase(p, ev, k2) {
                assert(confirmed_at(ev, k2, expected_answer(p)));
                assert(k3 == k2 + 2);
                if let Phase::Go(k4, pending4) = format_phase(p.format_device, ev, k3, pending) {
                    if p.format_device is Some {
                        assert(validated_at(ev, k2 + 2));
                    }
                }
            }
        }
    }
}

proof fn lemma_contains_last(a: Seq<Seq<char>>, x: Seq<char>)
    requires
        a.len() > 0,
    ensures
        a.contains(x) <==> (a.drop_last().contains(x) || a.last() == x),
{
    if a.contains(x) {
        let i = choose|i: int| 0 <= i < a.len() && a[i] == x;
        if i < a.len() - 1 {
            assert(a.drop_last()[i] == x);
        }
    }
    if a.drop_last().contains(x) {
        let i = choose|i: int| 0 <= i < a.drop_last().len() && a.drop_last()[i] == x;
        assert(a[i] == x);
    }
    if a.last() == x {
        assert(a[a.len() - 1] == x);
    }
}

proof fn lemma_scan_plain(a: Seq<Seq<char>>)
    requires
        !a.contains("--"@),
    ensures
        dry_run_scan(a) == (a.filter(|x: Seq<char>| x != "--dry-run"@), a.contains("--dry-run"@), false),
    decreases a.len(),
{
    reveal(Seq::filter);
    if a.len() > 0 {
        lemma_contains_last(a, "--"@);
        lemma_contains_last(a, "--dry-run"@);
        lemma_scan_plain(a.drop_last());
    }
}

proof fn lemma_scan_after(b: Seq<Seq<char>>, c: Seq<Seq<char>>)
    requires
        !b.contains("--"@),
    ensures
        dry_run_scan(b + seq!["--"@] + c) == (
            b.filter(|x: Seq<char>| x != "--dry-run"@) + seq!["--"@] + c,
            b.contains("--dry-run"@),
            true,
        ),
    decreases c.len(),
{
    reveal_strlit("--");
    reveal_strlit("--dry-run");
    assert("--"@ != "--dry-run"@) by {
        assert("--"@.len() != "--dry-run"@.len());
    }
    if c.len() == 0 {
        let a = b + seq!["--"@];
        assert(b + seq!["--"@] + c =~= a);
        assert(a.drop_last() =~= b);
        lemma_scan_plain(b);
    } else {
        lemma_scan_after(b, c.drop_last());
        assert((b + seq!["--"@] + c).drop_last() =~= b + seq!["--"@] + c.drop_last());
        assert((b + seq!["--"@] + c).last() == c.last());
        assert(b.filter(|x: Seq<char>| x != "--dry-run"@) + seq!["--"@] + c =~= (b.filter(
            |x: Seq<char>| x != "--dry-run"@,
        ) + seq!["--"@] + c.drop_last()).push(c.last()));
    }
}

/// `--dry-run` may stand anywhere before `--`: without a `--`, the flag is
/// set exactly when `--dry-run` is given, and every other argument is kept in
/// order; after the first `--`, a `--dry-run` is an ordinary argument, kept
/// with all the others.
pub proof fn law_dry_run_flag(b: Seq<Seq<char>>, c: Seq<Seq<char>>)
    requires
        !b.contains("--"@),
    ensures
        dry_run_scan(b).0 == b.filter(|x: Seq<char>| x != "--dry-run"@),
        dry_run_scan(b).1 == b.contains("--dry-run"@),
        dry_run_scan(b + seq!["--"@] + c).0 == b.filter(|x: Seq<char>| x != "--dry-run"@) + seq!["--"@] + c,
        dry_run_scan(b + seq!["--"@] + c).1 == b.contains("--dry-run"@),
{
    lemma_scan_plain(b);
    lemma_scan_after(b, c);
}

/// A network check tries the addresses in order, each at most once, and stops
/// at the first that connects: the connected address is the last one tried,
/// and every address before it failed.
pub proof fn law_tcp_stops_at_first_success(addresses: Seq<Seq<char>>, attempts: Seq<Attempt>)
    ensures
        probe_of(addresses, attempts).next matches Some(i) ==> 0 <= i < addresses.len() && i <= attempts.len()
            && (forall|j: int| 0 <= j < i ==> #[trigger] attempts[j] is Failed),
        probe_of(addresses, attempts).connected matches Some(i) ==> {
            &&& 0 <= i < addresses.len()
            &&& i < attempts.len()
            &&& attempts[i] is Connected
            &&& forall|j: int| 0 <= j < i ==> #[trigger] attempts[j] is Failed
        },
    decreases attempts.len(),
{
    if attempts.len() > 0 {
        let init = attempts.drop_last();
        law_tcp_stops_at_first_success(addresses, init);
        assert(forall|j: int| 0 <= j < init.len() ==> init[j] == attempts[j]);
        let p = probe_of(addresses, init);
        if let Some(i) = p.next {
            assert(i == init.len()) by {
                lemma_probe_next_index(addresses, init);
            }
        }
    }
}

proof fn lemma_probe_next_index(addresses: Seq<Seq<char>>, attempts: Seq<Attempt>)
    ensures
        probe_of(addresses, attempts).next matches Some(i) ==> i == attempts.len(),
    decreases attempts.len(),
{
    if attempts.len() > 0 {
        lemma_probe_next_index(addresses, attempts.drop_last());
    }
}

/// A network check succeeds exactly when a TCP connection was made; DNS
/// alone is never reported as success.
pub proof fn law_check_succeeds_only_on_connection(
    host: Seq<char>,
    port: u16,
    is_ip: bool,
    addresses: Seq<Seq<char>>,
    p: ProbeView,
)
    ensures
        check_report(host, port, is_ip, addresses, p).1 is Ok <==> p.connected is Some,
{
}

/// A piece of a path: not empty, without `/`, and neither `.` nor `..`.
pub open spec fn entry_name(f: Seq<char>) -> bool {
    &&& f.len() > 0
    &&& forall|i: int| 0 <= i < f.len() ==> f[i] != '/'
    &&& f != seq!['.']
    &&& f != seq!['.', '.']
}

proof fn lemma_split_pieces(s: Seq<char>, sep: char)
    ensures
        forall|j: int, k: int|
            0 <= j < split(s, sep).len() && 0 <= k < split(s, sep)[j].len() ==> split(s, sep)[j][k] != sep,
    decreases s.len(),
{
    if s.len() > 0 {
        lemma_split_pieces(s.drop_last(), sep);
        lemma_split_nonempty(s.drop_last(), sep);
        let rest = split(s.drop_last(), sep);
        if s.last() != sep {
            let last = rest.last().push(s.last());
            assert forall|k: int| 0 <= k < last.len() implies last[k] != sep by {
                if k < rest.last().len() {
                    assert(rest[rest.len() - 1][k] != sep);
                }
            }
        }
    }
}

proof fn lemma_split_append(s: Seq<char>, t: Seq<char>, sep: char)
    requires
        forall|i: int| 0 <= i < t.len() ==> t[i] != sep,
    ensures
        split(s + t, sep).len() == split(s, sep).len(),
        split(s + t, sep).last() == split(s, sep).last() + t,
        split(s + t, sep).drop_last() == split(s, sep).drop_last(),
    decreases t.len(),
{
    lemma_split_nonempty(s, sep);
    if t.len() == 0 {
        assert(s + t =~= s);
        assert(split(s, sep).last() + t =~= split(s, sep).last());
    } else {
        lemma_split_append(s, t.drop_last(), sep);
        assert((s + t).drop_last() =~= s + t.drop_last());
        assert((s + t).last() == t.last());
        let rest = split(s + t.drop_last(), sep);
        assert(split(s + t, sep) == rest.update(rest.len() - 1, rest.last().push(t.last())));
        assert(rest.last().push(t.last()) =~= split(s, sep).last() + t);
        assert(split(s + t, sep).drop_last() =~= rest.drop_last());
    }
}

proof fn lemma_named_last(ps: Seq<Seq<char>>)
    ensures
        named(ps).len() > 0 ==> named(ps).last().len() > 0 && named(ps).last() != seq!['.'] && exists|j: int|
            0 <= j < ps.len() && ps[j] == named(ps).last(),
    decreases ps.len(),
{
    if ps.len() > 0 {
        lemma_named_last(ps.drop_last());
        let x = ps.last();
        if !(x.len() == 0 || x == seq!['.']) {
            assert(ps[ps.len() - 1] == x);
        } else if named(ps).len() > 0 {
            let j = choose|j: int| 0 <= j < ps.drop_last().len() && ps.drop_last()[j] == named(ps).last();
            assert(ps[j] == named(ps).last());
        }
    }
}

proof fn lemma_file_name_is_entry(p: Seq<char>)
    ensures
        crate::paths::file_name(p) matches Some(f) ==> entry_name(f),
{
    let pieces = split(p, '/');
    lemma_split_pieces(p, '/');
    lemma_named_last(pieces);
    let c = components(p);
    if let Some(f) = crate::paths::file_name(p) {
        let n = named(pieces);
        if n.len() > 0 {
            assert(c.last() == n.last());
            let j = choose|j: int| 0 <= j < pieces.len() && pieces[j] == n.last();
            assert forall|i: int| 0 <= i < f.len() implies f[i] != '/' by {
                assert(pieces[j][i] != '/');
            }
        } else {
            let root: Seq<Seq<char>> = if crate::paths::is_absolute(p) {
                seq![seq!['/']]
            } else {
                Seq::empty()
            };
            let lead: Seq<Seq<char>> = if !crate::paths::is_absolute(p) && pieces[0] == seq!['.'] {
                seq![seq!['.']]
            } else {
                Seq::empty()
            };
            assert(c == root + lead + n);
            assert(n =~= Seq::<Seq<char>>::empty());
            assert(c =~= root + lead);
        }
    }
}

proof fn lemma_join_last_piece(c: Seq<char>, f: Seq<char>)
    requires
        entry_name(f),
    ensures
        split(join_path(c, f), '/').last() == f,
        !crate::paths::is_absolute(f),
{
    assert(f[0] != '/');
    let j = join_path(c, f);
    if c.len() == 0 {
        lemma_split_append(Seq::<char>::empty(), f, '/');
        assert(Seq::<char>::empty() + f =~= f);
        assert(split(Seq::<char>::empty(), '/').last() + f =~= f);
    } else if c.last() == '/' {
        lemma_split_append(c, f, '/');
        lemma_split_nonempty(c.drop_last(), '/');
        assert(split(c, '/').last() =~= Seq::<char>::empty());
        assert(split(c, '/').last() + f =~= f);
    } else {
        let d = c + seq!['/'];
        assert(j =~= d + f);
        lemma_split_append(d, f, '/');
        assert(d.drop_last() =~= c);
        assert(d.last() == '/');
        lemma_split_nonempty(c, '/');
        assert(split(d, '/').last() =~= Seq::<char>::empty());
        assert(split(d, '/').last() + f =~= f);
    }
}

proof fn lemma_file_name_join(c: Seq<char>, f: Seq<char>)
    requires
        entry_name(f),
    ensures
        crate::paths::file_name(join_path(c, f)) == Some(f),
        crate::paths::parent(join_path(c, f)) is Some,
{
    lemma_join_last_piece(c, f);
    let j = join_path(c, f);
    let pieces = split(j, '/');
    lemma_split_nonempty(j, '/');
    assert(pieces.last() == f);
    assert(pieces.drop_last().push(f) =~= pieces);
    assert(named(pieces) == named(pieces.drop_last()).push(f));
    let comps = components(j);
    assert(comps.last() == f);
    assert(f != seq!['/']) by {
        if f == seq!['/'] {
            assert(f[0] == '/');
        }
    }
}

/// A deletion removes only an entry whose protection was checked: when the
/// system names the same canonical directory both times it is asked for the
/// target's directory, the entry that a deletion plan removes is no
/// protected path (no system directory, nothing under `/proc`, `/sys` or
/// `/dev`, not the working directory or one of its ancestors, not HOME).
pub proof fn law_deleted_entry_is_not_protected(a: Seq<Seq<char>>, env: Environment, ans: Seq<Answer>)
    requires
        ans.len() >= 2,
        ans[0] == ans[1],
    ensures
        delete_plan_of(a, env, ans) matches Next::Done(Ok(p)) ==> p.delete_args matches Some(d) && d.len()
            >= 2 && !is_protected(d[1], env),
{
    if let Ok(s) = delete_args(a) {
        if let Some(t) = s.target {
            if let Ok(raw) = resolved(t, env) {
                if let Some(pp) = parent(raw) {
                    if let Stage::Got(Location::Found(c), k1) = canonical_stage(pp, ans, 0) {
                        if let Some(f) = file_name(raw) {
                            lemma_file_name_is_entry(raw);
                            let name = join_path(c@, f);
                            lemma_file_name_join(c@, f);
                            assert(k1 == 1);
                            let p2 = parent(name)->0;
                            assert(canonical_stage(p2, ans, 1) == Stage::Got(Location::Found(c), 2));
                            lemma_deletion_target(name, s.force, s.permanent, env, ans, k1);
                            if let Next::Done(Ok(p)) = delete_plan_of(a, env, ans) {
                                assert(protect_stage(name, env, ans, 1) == Stage::Got(is_protected(name, env), 2));
                                assert(!is_protected(name, env));
                                let is_dir = choose|is_dir: bool| p == deletion(name, is_dir, s.force, s.permanent);
                                assert(p == deletion(name, is_dir, s.force, s.permanent));
                                reveal_strlit("delete");
                                assert(crate::removal::recheck_args(name, s.force, s.permanent)[1] == name);
                            }
                        }
                    }
                }
            }
        }
    }
}

/// A deletion never follows a final symbolic link: the entry that a deletion
/// plan removes has the name given on the command line, inside the
/// canonical form of the directory that holds it.
pub proof fn law_deletion_keeps_the_given_name(a: Seq<Seq<char>>, env: Environment, ans: Seq<Answer>)
    ensures
        delete_plan_of(a, env, ans) matches Next::Done(Ok(p)) ==> {
            &&& delete_args(a) matches Ok(s) && s.target matches Some(t) && resolved(t, env) matches Ok(raw)
                && file_name(raw) is Some
            &&& p.delete_args matches Some(d) && d.len() >= 2 && file_name(d[1]) == file_name(
                resolved(delete_args(a)->Ok_0.target->0, env)->Ok_0,
            )
        },
{
    if let Ok(s) = delete_args(a) {
        if let Some(t) = s.target {
            if let Ok(raw) = resolved(t, env) {
                if let Some(pp) = parent(raw) {
                    if let Stage::Got(Location::Found(c), k1) = canonical_stage(pp, ans, 0) {
                        if let Some(f) = file_name(raw) {
                            lemma_file_name_is_entry(raw);
                            let name = join_path(c@, f);
                            lemma_file_name_join(c@, f);
                            lemma_deletion_target(name, s.force, s.permanent, env, ans, k1);
                            if let Next::Done(Ok(p)) = delete_plan_of(a, env, ans) {
                                let is_dir = choose|is_dir: bool| p == deletion(name, is_dir, s.force, s.permanent);
                                assert(p == deletion(name, is_dir, s.force, s.permanent));
                                assert(crate::removal::recheck_args(name, s.force, s.permanent)[1] == name);
                            }
                        }
                    }
                }
            }
        }
    }
}

/// The number of steps from `i` on that run a program (and so need a tool).
pub open spec fn tools_from(steps: Seq<StepView>, i: int) -> nat
    decreases steps.len() - i,
{
    if i < 0 || i >= steps.len() {
        0
    } else {
        tools_from(steps, i + 1) + if steps[i].program == crate::runner::create_marker() {
            0nat
        } else {
            1nat
        }
    }
}

/// Event `j` reports a tool that is present.
pub open spec fn tool_present(ev: Seq<Event>, j: int) -> bool {
    0 <= j < ev.len() && match ev[j] {
        Event::ToolChecked(b) => b,
        _ => false,
    }
}

proof fn lemma_tools_phase_go(steps: Seq<StepView>, i: int, ev: Seq<Event>, k: int)
    requires
        0 <= i,
        0 <= k,
    ensures
        tools_phase(steps, i, ev, k) matches Phase::Go(k2, _) ==> k2 == k + tools_from(steps, i) && forall|j: int|
            k <= j < k2 ==> #[trigger] tool_present(ev, j),
    decreases steps.len() - i,
{
    if i < steps.len() {
        lemma_tools_phase_go(steps, i + 1, ev, k);
        lemma_tools_phase_go(steps, i + 1, ev, k + 1);
    }
}

/// Every tool is checked before anything runs: once running a plan reaches
/// one of its steps, the first events report every program of the plan as
/// present, one event per program step.
pub proof fn law_tools_are_checked_first(p: PlanView, ev: Seq<Event>)
    ensures
        runs_a_step(execution(p, false, ev).effect) ==> tools_from(p.steps, 0) <= ev.len() && forall|j: int|
            0 <= j < tools_from(p.steps, 0) ==> #[trigger] tool_present(ev, j),
{
    lemma_tools_phase_effects(p.steps, 0, ev, 0);
    lemma_tools_phase_go(p.steps, 0, ev, 0);
    if let Phase::Go(k1, _) = tools_phase(p.steps, 0, ev, 0) {
        if runs_a_step(execution(p, false, ev).effect) {
            let j = tools_from(p.steps, 0) as int - 1;
            if j >= 0 {
                assert(tool_present(ev, j));
            }
        }
    }
}

/// A step runs a program from `/usr/bin`, or creates one file (named by its
/// one argument); a program started in the background takes no arguments.
pub open spec fn known_step(s: StepView) -> bool {
    &&& starts_with(s.program, "/usr/bin/"@) || s.program == crate::runner::create_marker()
    &&& s.program == crate::runner::create_marker() ==> s.args.len() == 1 && !s.detached
    &&& s.detached ==> s.args.len() == 0
}

/// A plan for the command line `a` has steps, every one of them known, and
/// creates a file only for `create file <name>`.
pub open spec fn runs_known_programs(p: PlanView, a: Seq<Seq<char>>) -> bool {
    &&& p.steps.len() > 0
    &&& forall|i: int| 0 <= i < p.steps.len() ==> known_step(#[trigger] p.steps[i])
    &&& forall|i: int|
        0 <= i < p.steps.len() && #[trigger] p.steps[i].program == crate::runner::create_marker() ==> a.len()
            == 3 && a[0] == "create"@ && a[1] == "file"@
}

proof fn lemma_usr_bin()
    ensures
        forall|x: Seq<char>|
            #![trigger "/usr/bin/"@ + x]
            starts_with("/usr/bin/"@ + x, "/usr/bin/"@) && "/usr/bin/"@ + x != crate::runner::create_marker(),
{
    reveal_strlit("/usr/bin/");
    reveal_strlit("@create-file");
    assert forall|x: Seq<char>|
        #![trigger "/usr/bin/"@ + x]
        starts_with("/usr/bin/"@ + x, "/usr/bin/"@) && "/usr/bin/"@ + x != crate::runner::create_marker() by {
        assert(("/usr/bin/"@ + x).take(9) =~= "/usr/bin/"@);
        assert(("/usr/bin/"@ + x)[0] != crate::runner::create_marker()[0]);
    }
}

/// Every plan runs known programs: except for `edit`, which runs the user's
/// editor, each step of a plan runs a program from `/usr/bin` or (only for
/// `create file`) creates the named file, and a program started in the
/// background gets no arguments. Every plan has at least one step.
pub proof fn law_plans_run_known_programs(a: Seq<Seq<char>>, env: Environment, ans: Seq<Answer>)
    requires
        a.len() > 0,
        a[0] != "edit"@,
    ensures
        plan_of(a, env, ans) matches Next::Done(Ok(p)) ==> runs_known_programs(p, a),
{
    lemma_dispatch(a, env, ans);
    lemma_usr_bin();
    lemma_verbs();
    if a[0] == "delete"@ && !(a.len() >= 2 && a[1] == "user"@) {
        law_deletion_defaults_to_trash(a.drop_first(), env, ans);
    }
}

proof fn lemma_recheck_args(name: Seq<char>, force: bool, permanent: bool)
    requires
        crate::paths::is_absolute(name),
    ensures
        delete_args(crate::removal::recheck_args(name, force, permanent).drop_first()) == Ok::<
            DeleteArgs,
            Seq<char>,
        >(DeleteArgs { force, permanent, target: Some(name), positional: false }),
{
    reveal_strlit("--");
    reveal_strlit("--force");
    reveal_strlit("--permanent");
    reveal_strlit("delete");
    assert(name != "--"@ && name != "--force"@ && name != "--permanent"@) by {
        assert("--"@[0] == '-' && "--force"@[0] == '-' && "--permanent"@[0] == '-');
    }
    assert("--force"@ != "--"@) by {
        assert("--force"@.len() != "--"@.len());
    }
    assert("--permanent"@ != "--"@ && "--permanent"@ != "--force"@) by {
        assert("--permanent"@.len() != "--"@.len());
        assert("--permanent"@.len() != "--force"@.len());
    }
    let empty = DeleteArgs { force: false, permanent: false, target: None, positional: false };
    let r0 = seq![name];
    assert(r0.drop_last() =~= Seq::<Seq<char>>::empty());
    assert(r0.last() == name);
    assert(delete_args(r0.drop_last()) == Ok::<DeleteArgs, Seq<char>>(empty));
    assert(delete_args(r0) == delete_arg(empty, name));
    let s0 = DeleteArgs { target: Some(name), ..empty };
    assert(delete_args(r0) == Ok::<DeleteArgs, Seq<char>>(s0));
    let r1 = if force {
        r0.push("--force"@)
    } else {
        r0
    };
    let s1 = DeleteArgs { force, ..s0 };
    if force {
        assert(r1.drop_last() =~= r0);
        assert(delete_args(r1) == delete_arg(s0, "--force"@));
    }
    assert(delete_args(r1) == Ok::<DeleteArgs, Seq<char>>(s1));
    let r2 = if permanent {
        r1.push("--permanent"@)
    } else {
        r1
    };
    if permanent {
        assert(r2.drop_last() =~= r1);
        assert(delete_args(r2) == delete_arg(s1, "--permanent"@));
    }
    assert(delete_args(r2) == Ok::<DeleteArgs, Seq<char>>(DeleteArgs { force, permanent, target: Some(name), positional: false }));
    assert(crate::removal::recheck_args(name, force, permanent).drop_first() =~= r2);
}

proof fn lemma_recheck_target(c: String, f: Seq<char>, force: bool, permanent: bool, env: Environment, ans: Seq<Answer>)
    requires
        entry_name(f),
        crate::paths::is_absolute(c@),
        ans.len() >= 1,
        ans[0] == Answer::Location(Location::Found(c)),
    ensures
        plan_of(crate::removal::recheck_args(join_path(c@, f), force, permanent), env, ans) == delete_target(
            join_path(c@, f),
            force,
            permanent,
            env,
            ans,
            1,
        ),
{
    let name = join_path(c@, f);
    lemma_file_name_join(c@, f);
    lemma_join_last_piece(c@, f);
    assert(crate::paths::is_absolute(name)) by {
        assert(name[0] == c@[0]);
    }
    let d = crate::removal::recheck_args(name, force, permanent);
    reveal_strlit("delete");
    reveal_strlit("user");
    assert(d[0] == "delete"@);
    assert(d[1] == name);
    assert(d[1] != "user"@) by {
        assert("user"@[0] != name[0]);
    }
    lemma_recheck_args(name, force, permanent);
    assert(name[0] != '~');
    assert(resolved(name, env) == Ok::<Seq<char>, Seq<char>>(name));
    assert(canonical_stage(parent(name)->0, ans, 0) == Stage::Got(Location::Found(c), 1));
    assert(plan_of(d, env, ans) == delete_plan_of(d.drop_first(), env, ans));
}

/// Planning a deletion once more with the arguments it carries gives the same
/// plan, as long as the system answers as an unchanged file system does: the
/// same canonical directory, an absolute path, both times it is asked for the
/// target's directory, and the same answers after that.
pub proof fn law_recheck_gives_the_same_plan(a: Seq<Seq<char>>, env: Environment, ans: Seq<Answer>)
    requires
        a.len() > 0,
        a[0] == "delete"@,
        !(a.len() >= 2 && a[1] == "user"@),
        ans.len() >= 2,
        ans[0] == ans[1],
        ans[0] matches Answer::Location(Location::Found(c)) ==> crate::paths::is_absolute(c@),
    ensures
        plan_of(a, env, ans) matches Next::Done(Ok(p)) ==> p.delete_args matches Some(d) && plan_of(d, env, ans)
            == Next::<PlanView>::Done(Ok(p)),
{
    let b = a.drop_first();
    assert(plan_of(a, env, ans) == delete_plan_of(b, env, ans));
    if let Ok(s) = delete_args(b) {
        if let Some(t) = s.target {
            if let Ok(raw) = resolved(t, env) {
                if let Some(pp) = parent(raw) {
                    if let Stage::Got(Location::Found(c), k1) = canonical_stage(pp, ans, 0) {
                        if let Some(f) = file_name(raw) {
                            lemma_file_name_is_entry(raw);
                            let name = join_path(c@, f);
                            lemma_deletion_target(name, s.force, s.permanent, env, ans, k1);
                            if let Next::Done(Ok(p)) = plan_of(a, env, ans) {
                                assert(delete_target(name, s.force, s.permanent, env, ans, 1) == Next::<PlanView>::Done(Ok(p)));
                                let is_dir = choose|is_dir: bool| p == deletion(name, is_dir, s.force, s.permanent);
                                assert(p == deletion(name, is_dir, s.force, s.permanent));
                                lemma_recheck_target(c, f, s.force, s.permanent, env, ans);
                            }
                        }
                    }
                }
            }
        }
    }
}

/// The power check judges batteries by charge while discharging: starting
/// from a healthy or unknown state, any battery discharging at 10% or less
/// makes the check an error, any discharging at 20% or less makes it at
/// least a warning, and batteries that are not discharging that low (charging,
/// full, or above 20%) never make it worse than unknown.
pub proof fn law_power_follows_discharging_batteries(h: Health, bs: Seq<(int, Seq<char>)>)
    requires
        h is Good || h is Unknown,
    ensures
        (exists|i: int| 0 <= i < bs.len() && #[trigger] bs[i].1 == "Discharging"@ && bs[i].0 <= 10)
            ==> crate::evaluate::battery_health(h, bs) is Error,
        (exists|i: int| 0 <= i < bs.len() && #[trigger] bs[i].1 == "Discharging"@ && bs[i].0 <= 20) ==> (
        crate::evaluate::battery_health(h, bs) is Error || crate::evaluate::battery_health(h, bs) is Warning),
        (forall|i: int| 0 <= i < bs.len() ==> !(#[trigger] bs[i].1 == "Discharging"@ && bs[i].0 <= 20)) ==> (
        crate::evaluate::battery_health(h, bs) is Good || crate::evaluate::battery_health(h, bs) is Unknown),
        h is Good && (forall|i: int| 0 <= i < bs.len() ==> #[trigger] bs[i].1.len() > 0 && !(bs[i].1 == "Discharging"@ && bs[i].0 <= 20))
            ==> crate::evaluate::battery_health(h, bs) is Good,
    decreases bs.len(),
{
    if bs.len() > 0 {
        let init = bs.drop_last();
        law_power_follows_discharging_batteries(h, init);
        assert(forall|i: int| 0 <= i < init.len() ==> init[i] == bs[i]);
        let last = bs.len() - 1;
        if exists|i: int| 0 <= i < bs.len() && #[trigger] bs[i].1 == "Discharging"@ && bs[i].0 <= 10 {
            let i = choose|i: int| 0 <= i < bs.len() && #[trigger] bs[i].1 == "Discharging"@ && bs[i].0 <= 10;
            if i < last {
                assert(init[i].1 == "Discharging"@ && init[i].0 <= 10);
            }
        }
        if exists|i: int| 0 <= i < bs.len() && #[trigger] bs[i].1 == "Discharging"@ && bs[i].0 <= 20 {
            let i = choose|i: int| 0 <= i < bs.len() && #[trigger] bs[i].1 == "Discharging"@ && bs[i].0 <= 20;
            if i < last {
                assert(init[i].1 == "Discharging"@ && init[i].0 <= 20);
            }
        }
        if forall|i: int| 0 <= i < bs.len() ==> !(#[trigger] bs[i].1 == "Discharging"@ && bs[i].0 <= 20) {
            assert forall|i: int| 0 <= i < init.len() implies !(#[trigger] init[i].1 == "Discharging"@ && init[i].0 <= 20) by {
                assert(init[i] == bs[i]);
            }
            assert(!(bs[last].1 == "Discharging"@ && bs[last].0 <= 20));
        }
        if h is Good && (forall|i: int| 0 <= i < bs.len() ==> #[trigger] bs[i].1.len() > 0 && !(bs[i].1 == "Discharging"@ && bs[i].0 <= 20)) {
            assert forall|i: int| 0 <= i < init.len() implies #[trigger] init[i].1.len() > 0 && !(init[i].1 == "Discharging"@ && init[i].0 <= 20) by {
                assert(init[i] == bs[i]);
            }
            assert(bs[last].1.len() > 0 && !(bs[last].1 == "Discharging"@ && bs[last].0 <= 20));
        }
    }
}

/// The package commands do what their names say: a plan for `install <name>`
/// runs `pacman -S --needed -- <name>`, for `uninstall <name>` exactly
/// `pacman -R -- <name>`, and for `update <name>` `pacman -Syu -- <name>`;
/// each is planned exactly when the name is a valid package name.
pub proof fn law_package_commands_do_what_they_say(a: Seq<Seq<char>>, env: Environment, ans: Seq<Answer>)
    requires
        a.len() == 2,
        a[0] == "install"@ || a[0] == "uninstall"@ || a[0] == "update"@,
    ensures
        plan_of(a, env, ans) is Done,
        plan_of(a, env, ans) matches Next::Done(Ok(_)) <==> valid_package_name(a[1]),
        plan_of(a, env, ans) matches Next::Done(Ok(p)) ==> p.steps == seq![
            tool(
                "pacman"@,
                if a[0] == "install"@ {
                    seq!["-S"@, "--needed"@, "--"@, a[1]]
                } else if a[0] == "uninstall"@ {
                    seq!["-R"@, "--"@, a[1]]
                } else {
                    seq!["-Syu"@, "--"@, a[1]]
                },
            ),
        ],
{
    lemma_dispatch(a, env, ans);
    lemma_verbs();
}

/// Each filesystem is formatted with its own program: a format plan exists
/// only for ext4, vfat, fat32 and exfat, and runs `mkfs.ext4`, `mkfs.exfat`,
/// or (for vfat and fat32) `mkfs.vfat` on the checked device; the three
/// programs are different.
pub proof fn law_format_program_matches_filesystem(a: Seq<Seq<char>>, env: Environment, ans: Seq<Answer>)
    requires
        a.len() == 3,
        a[0] == "format"@,
    ensures
        plan_of(a, env, ans) matches Next::Done(Ok(p)) ==> {
            &&& a[2] == "ext4"@ || a[2] == "vfat"@ || a[2] == "fat32"@ || a[2] == "exfat"@
            &&& p.format_device matches Some(d) && p.steps == seq![
                tool(
                    if a[2] == "ext4"@ {
                        "mkfs.ext4"@
                    } else if a[2] == "exfat"@ {
                        "mkfs.exfat"@
                    } else {
                        "mkfs.vfat"@
                    },
                    seq![d],
                ),
            ]
        },
        "mkfs.ext4"@ != "mkfs.exfat"@ && "mkfs.ext4"@ != "mkfs.vfat"@ && "mkfs.exfat"@ != "mkfs.vfat"@,
{
    lemma_dispatch(a, env, ans);
    reveal_strlit("ext4");
    reveal_strlit("vfat");
    reveal_strlit("fat32");
    reveal_strlit("exfat");
    reveal_strlit("mkfs.ext4");
    reveal_strlit("mkfs.exfat");
    reveal_strlit("mkfs.vfat");
    assert("ext4"@[2] != "exfat"@[2]);
    assert("vfat"@[0] != "exfat"@[0]);
    assert("fat32"@[0] != "exfat"@[0]);
    assert("ext4"@[0] != "vfat"@[0]);
    assert("ext4"@.len() != "fat32"@.len());
    assert("mkfs.ext4"@[7] != "mkfs.exfat"@[7]);
    assert("mkfs.ext4"@[5] != "mkfs.vfat"@[5]);
    assert("mkfs.exfat"@[5] != "mkfs.vfat"@[5]);
}

/// What a DNS label is: 1 to 63 characters, each an ASCII letter, an ASCII
/// digit or `-`, neither the first nor the last being `-`. Hyphens inside a
/// label are allowed.
pub proof fn law_dns_labels(s: Seq<char>)
    ensures
        crate::capabilities::valid_label(s) <==> {
            &&& 1 <= s.len() <= 63
            &&& s[0] != '-'
            &&& s[s.len() - 1] != '-'
            &&& forall|i: int|
                0 <= i < s.len() ==> ('a' <= #[trigger] s[i] <= 'z') || ('A' <= s[i] <= 'Z') || ('0' <= s[i] <= '9')
                    || s[i] == '-'
        },
{
    reveal_strlit("-");
    assert("-"@.len() == 1 && "-"@[0] == '-');
    assert forall|c: char| #[trigger] "-"@.contains(c) <==> c == '-' by {
        if c == '-' {
            assert("-"@[0] == c);
        }
    }
}

/// Which host names a network check accepts: after one optional final dot,
/// a name of 1 to 253 characters whose dot-separated labels each have 1 to
/// 63 ASCII letters, digits or inner hyphens.
pub proof fn law_host_names(host: Seq<char>)
    ensures
        crate::capabilities::valid_host_name(host) <==> {
            let n = crate::capabilities::without_final_dot(host);
            &&& 1 <= n.len() <= 253
            &&& forall|j: int|
                0 <= j < split(n, '.').len() ==> {
                    let l = #[trigger] split(n, '.')[j];
                    &&& 1 <= l.len() <= 63
                    &&& l[0] != '-'
                    &&& l[l.len() - 1] != '-'
                    &&& forall|i: int|
                        0 <= i < l.len() ==> ('a' <= #[trigger] l[i] <= 'z') || ('A' <= l[i] <= 'Z') || ('0'
                            <= l[i] <= '9') || l[i] == '-'
                }
        },
{
    let n = crate::capabilities::without_final_dot(host);
    assert forall|j: int| 0 <= j < split(n, '.').len() implies crate::capabilities::valid_label(
        #[trigger] split(n, '.')[j],
    ) == ({
        let l = split(n, '.')[j];
        &&& 1 <= l.len() <= 63
        &&& l[0] != '-'
        &&& l[l.len() - 1] != '-'
        &&& forall|i: int|
            0 <= i < l.len() ==> ('a' <= #[trigger] l[i] <= 'z') || ('A' <= l[i] <= 'Z') || ('0' <= l[i]
                <= '9') || l[i] == '-'
    }) by {
        law_dns_labels(split(n, '.')[j]);
    }
}

/// The status names pacman as the package manager exactly when the
/// `os-release` ID is `arch`; for any other ID, or none, it is `unknown`.
pub proof fn law_package_manager_is_pacman_only_on_arch(os_release: Seq<char>)
    ensures
        crate::platform::package_manager_of(os_release) == "pacman"@ <==> crate::platform::first_value(
            crate::text::lines(os_release),
            "ID"@,
        ) == Some("arch"@),
        crate::platform::package_manager_of(os_release) != "pacman"@ ==> crate::platform::package_manager_of(
            os_release,
        ) == "unknown"@,
{
    reveal_strlit("pacman");
    reveal_strlit("unknown");
    assert("pacman"@.len() != "unknown"@.len());
}

} // verus!
