use monux::cli::{preview, read_only_message, request, split_dry_run, Preview, Request};
use monux::command::{Plan, Step};
use monux::runner::{execute, Effect, Event, RunStatus};

fn step(program: &str, args: &[&str], detached: bool) -> Step {
    Step {
        program: program.to_string(),
        args: args.iter().map(|a| a.to_string()).collect(),
        detached,
    }
}

fn plan_with(steps: Vec<Step>, confirm: bool) -> Plan {
    let mut p = Plan::default();
    p.steps = steps;
    p.confirm = confirm;
    p
}

fn strings(v: &[&str]) -> Vec<String> {
    v.iter().map(|s| s.to_string()).collect()
}

#[test]
fn dry_run_only_describes() {
    let p = plan_with(vec![step("/usr/bin/ls", &["-l"], false)], true);
    let a = execute(&p, true, &vec![]);
    assert_eq!(a.print, vec!["/usr/bin/ls [\"-l\"]".to_string()]);
    assert!(matches!(a.effect, Effect::Finish(Ok(()))));
}

#[test]
fn tools_are_checked_before_anything_runs() {
    let p = plan_with(
        vec![step("/usr/bin/ls", &[], false), step("/usr/bin/cat", &["x"], false)],
        false,
    );
    let a = execute(&p, false, &vec![]);
    assert!(matches!(&a.effect, Effect::CheckTool(t) if t == "/usr/bin/ls"));
    let a = execute(&p, false, &vec![Event::ToolChecked(true)]);
    assert!(matches!(&a.effect, Effect::CheckTool(t) if t == "/usr/bin/cat"));
    let a = execute(&p, false, &vec![Event::ToolChecked(true), Event::ToolChecked(false)]);
    match a.effect {
        Effect::Finish(Err(e)) => assert_eq!(
            e,
            "В окружении недоступна нужная возможность (/usr/bin/cat). См. mono manual backend <command>."
        ),
        other => panic!("unexpected {other:?}"),
    }
}

#[test]
fn missing_trash_keeps_the_object() {
    let p = plan_with(vec![step("/usr/bin/gio", &["trash", "--", "/tmp/x"], false)], true);
    let a = execute(&p, false, &vec![Event::ToolChecked(false)]);
    match a.effect {
        Effect::Finish(Err(e)) => assert_eq!(
            e,
            "Корзина недоступна. Объект сохранён. Для удаления без корзины явно укажите --permanent."
        ),
        other => panic!("unexpected {other:?}"),
    }
}

#[test]
fn confirmation_needs_a_terminal_and_the_word() {
    let p = plan_with(vec![step("/usr/bin/systemctl", &["reboot"], false)], true);
    let a = execute(&p, false, &vec![Event::ToolChecked(true)]);
    assert_eq!(a.print, vec!["/usr/bin/systemctl [\"reboot\"]".to_string()]);
    assert!(matches!(a.effect, Effect::CheckTerminal));
    let a = execute(&p, false, &vec![Event::ToolChecked(true), Event::Terminal(false)]);
    match a.effect {
        Effect::Finish(Err(e)) => assert_eq!(
            e,
            "Confirmation requires an interactive terminal. Use --dry-run to inspect the plan."
        ),
        other => panic!("unexpected {other:?}"),
    }
    let a = execute(&p, false, &vec![Event::ToolChecked(true), Event::Terminal(true)]);
    assert!(matches!(&a.effect, Effect::ReadConfirmation(t) if t == "Confirm by typing \"yes\": "));
    let no = vec![
        Event::ToolChecked(true),
        Event::Terminal(true),
        Event::Answered(Ok("y\n".to_string())),
    ];
    match execute(&p, false, &no).effect {
        Effect::Finish(Err(e)) => assert_eq!(e, "Cancelled; no changes made"),
        other => panic!("unexpected {other:?}"),
    }
    let yes = vec![
        Event::ToolChecked(true),
        Event::Terminal(true),
        Event::Answered(Ok("  yes \n".to_string())),
    ];
    let a = execute(&p, false, &yes);
    assert!(matches!(&a.effect, Effect::Run(prog, args) if prog == "/usr/bin/systemctl" && args == &strings(&["reboot"])));
}

#[test]
fn failures_stop_the_run() {
    let p = plan_with(
        vec![step("/usr/bin/true", &[], false), step("/usr/bin/false", &[], false)],
        false,
    );
    let mut events = vec![Event::ToolChecked(true), Event::ToolChecked(true)];
    events.push(Event::Finished(Ok(RunStatus { success: true, status: "exit status: 0".to_string() })));
    events.push(Event::Finished(Ok(RunStatus { success: false, status: "exit status: 1".to_string() })));
    match execute(&p, false, &events).effect {
        Effect::Finish(Err(e)) => assert_eq!(e, "/usr/bin/false returned exit status: 1"),
        other => panic!("unexpected {other:?}"),
    }
}

#[test]
fn notes_are_shown_before_an_unconfirmed_run() {
    let mut p = plan_with(vec![step("/usr/bin/pacman", &["-Sc"], false)], false);
    p.notes.push("Clean package cache.".to_string());
    let a = execute(&p, false, &vec![Event::ToolChecked(true)]);
    assert_eq!(a.print, vec!["Clean package cache.".to_string()]);
    assert!(matches!(a.effect, Effect::Run(_, _)));
    let done = execute(
        &p,
        false,
        &vec![
            Event::ToolChecked(true),
            Event::Finished(Ok(RunStatus { success: true, status: "exit status: 0".to_string() })),
        ],
    );
    assert!(matches!(done.effect, Effect::Finish(Ok(()))));
    assert!(done.print.is_empty());
}

#[test]
fn started_programs_are_reported() {
    let p = plan_with(vec![step("/usr/bin/firefox", &[], true)], false);
    let a = execute(&p, false, &vec![Event::ToolChecked(true)]);
    assert!(matches!(a.effect, Effect::Spawn(_, _)));
    let a = execute(&p, false, &vec![Event::ToolChecked(true), Event::Started(Ok(77))]);
    assert_eq!(
        a.print,
        vec!["Started PID 77 (application readiness not checked)".to_string()]
    );
    assert!(matches!(a.effect, Effect::Finish(Ok(()))));
}

#[test]
fn formats_are_validated_again_after_confirmation() {
    let mut p = plan_with(vec![step("/usr/bin/mkfs.ext4", &["/dev/sdb1"], false)], true);
    p.format_device = Some("/dev/sdb1".to_string());
    let mut events = vec![Event::ToolChecked(true)];
    assert!(matches!(&execute(&p, false, &events).effect, Effect::ValidateFormat(d) if d == "/dev/sdb1"));
    events.push(Event::FormatChecked(Ok(())));
    events.push(Event::Terminal(true));
    assert!(matches!(&execute(&p, false, &events).effect, Effect::ReadConfirmation(t) if t == "Confirm by typing \"/dev/sdb1\": "));
    events.push(Event::Answered(Ok("/dev/sdb1\n".to_string())));
    assert!(matches!(&execute(&p, false, &events).effect, Effect::ValidateFormat(_)));
    events.push(Event::FormatChecked(Err("Partition is active swap".to_string())));
    match execute(&p, false, &events).effect {
        Effect::Finish(Err(e)) => assert_eq!(e, "Partition is active swap"),
        other => panic!("unexpected {other:?}"),
    }
}

#[test]
fn deletions_are_planned_again_and_files_created() {
    let mut p = plan_with(vec![step("/usr/bin/gio", &["trash", "--", "/tmp/x"], false)], true);
    p.delete_args = Some(strings(&["delete", "/tmp/x"]));
    let events = vec![
        Event::ToolChecked(true),
        Event::Terminal(true),
        Event::Answered(Ok("yes".to_string())),
    ];
    assert!(matches!(&execute(&p, false, &events).effect, Effect::Recheck(a) if a == &strings(&["delete", "/tmp/x"])));
    let c = plan_with(vec![step("@create-file", &["/tmp/new"], false)], false);
    assert!(matches!(&execute(&c, false, &vec![]).effect, Effect::CreateFile(f) if f == "/tmp/new"));
    match execute(&c, false, &vec![Event::Created(Err("File exists (os error 17)".to_string()))]).effect {
        Effect::Finish(Err(e)) => assert_eq!(e, "File exists (os error 17)"),
        other => panic!("unexpected {other:?}"),
    }
}

#[test]
fn wrong_events_are_refused() {
    let p = plan_with(vec![step("/usr/bin/ls", &[], false)], false);
    match execute(&p, false, &vec![Event::Terminal(true)]).effect {
        Effect::Finish(Err(e)) => assert_eq!(e, "Unexpected answer to a system query"),
        other => panic!("unexpected {other:?}"),
    }
}

#[test]
fn dry_run_flag_before_separator_only() {
    let (kept, dry) = split_dry_run(&strings(&["delete", "--dry-run", "x"]));
    assert!(dry);
    assert_eq!(kept, strings(&["delete", "x"]));
    let (kept, dry) = split_dry_run(&strings(&["delete", "--", "--dry-run"]));
    assert!(!dry);
    assert_eq!(kept, strings(&["delete", "--", "--dry-run"]));
}

#[test]
fn requests_are_recognised() {
    assert!(matches!(request(&[]).unwrap(), Request::Help(None)));
    assert!(matches!(request(&["-h"]).unwrap(), Request::Help(None)));
    assert!(matches!(request(&["help", "delete"]).unwrap(), Request::Help(Some(c)) if c == "delete"));
    assert!(matches!(request(&["manual", "backend", "ip"]).unwrap(), Request::BackendManual(c) if c == "ip"));
    assert!(matches!(request(&["version"]).unwrap(), Request::Version));
    assert!(matches!(request(&["network", "status"]).unwrap(), Request::Network));
    assert!(matches!(request(&["network", "check", "archlinux.org"]).unwrap(), Request::NetworkCheck(h, 443) if h == "archlinux.org"));
    assert!(matches!(request(&["network", "check", "::1", "22"]).unwrap(), Request::NetworkCheck(_, 22)));
    assert_eq!(
        request(&["network", "check", "::1", "ssh"]).unwrap_err(),
        "Port must be 1..65535"
    );
    assert!(matches!(request(&["install", "nmap"]).unwrap(), Request::Plan));
}

#[test]
fn dry_runs_of_read_only_commands() {
    assert!(matches!(preview(&["status"]), Preview::ReadOnly));
    assert!(matches!(preview(&["manual", "backend", "ip"]), Preview::ReadOnly));
    assert!(matches!(preview(&["network", "check", "h"]), Preview::Network(h, p) if h == "h" && p == "443"));
    assert!(matches!(preview(&["reboot"]), Preview::Plan));
    assert_eq!(
        read_only_message(&strings(&["help", "delete"])),
        "Read-only Mono command (not executed): [\"help\", \"delete\"]"
    );
}
