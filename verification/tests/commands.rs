use monux::capabilities::{check_target, preview_network, validate_host, PackageName};
use monux::checks::process_pattern;
use monux::command::{Plan, Step};
use monux::commands::plan;
use monux::probe::{Answer, Environment, Location, Outcome, Query, RunOutput, Var};
use monux::removal::{delete_plan, validate_format};

/// The environment of a user in their home directory.
fn env() -> Environment {
    Environment {
        home: Var::Value("/home/ana".to_string()),
        cwd: Location::Found("/home/ana".to_string()),
        visual: None,
        editor: None,
        session: Some("3".to_string()),
        pid: 4242,
        real_cwd: Some("/home/ana".to_string()),
        real_home: Some("/home/ana".to_string()),
    }
}

fn is_ipv4(text: &str) -> bool {
    let parts: Vec<&str> = text.split('.').collect();
    parts.len() == 4 && parts.iter().all(|p| p.parse::<u8>().is_ok())
}

/// A small system: paths lead to themselves, nothing exists but the home
/// directory and `/home/ana/notes.txt`, `/dev/sdb1` is an unmounted
/// partition, no name is a systemd service, and IPv4 addresses are the only
/// addresses.
fn answer(q: &Query) -> Answer {
    let ok = |stdout: &str| {
        Answer::Ran(Ok(RunOutput {
            success: true,
            status: "exit status: 0".to_string(),
            stdout: stdout.to_string(),
            stderr: String::new(),
        }))
    };
    match q {
        Query::Exists(p) | Query::Present(p) => {
            Answer::Flag(p == "/home/ana" || p == "/home/ana/notes.txt")
        }
        Query::DevicePath(p) => {
            if p == "/dev/sdb1" || p == "sdb1" {
                Answer::Text(Ok("/dev/sdb1".to_string()))
            } else {
                Answer::Text(Err("No such file or directory (os error 2)".to_string()))
            }
        }
        Query::BlockDevice(p) => Answer::Checked(Ok(p == "/dev/sdb1")),
        Query::Canonical(p) => Answer::Location(Location::Found(p.clone())),
        Query::Entry(p) => Answer::Checked(Ok(p == "/home/ana" || p == "/home/ana/photos")),
        Query::DirEntries(p) => Answer::Checked(Ok(p == "/home/ana/photos")),
        Query::Run(program, args) => {
            if program == "/usr/bin/id" {
                ok(if args[1] == "root" { "0" } else { "1001" })
            } else if program == "/usr/bin/lsblk" && args[1] == "TYPE" {
                ok("part")
            } else if program == "/usr/bin/lsblk" {
                ok("")
            } else if program == "/usr/bin/bluetoothctl" {
                ok("Device AA:BB:CC:DD:EE:FF Headset\nDevice 11:22:33:44:55:66 Speaker")
            } else {
                ok("not-found")
            }
        }
        Query::IpAddress(t) => {
            if is_ipv4(t) {
                Answer::Checked(Ok(true))
            } else {
                Answer::Checked(Err("invalid IP address syntax".to_string()))
            }
        }
        Query::ReadFile(_) => Answer::Text(Ok("Filename Type Size Used Priority\n".to_string())),
    }
}

/// Plans a command line, answering every query from the small system.
fn plan_of(args: &[&str]) -> Result<Plan, String> {
    let env = env();
    let mut answers = Vec::new();
    for _ in 0..20 {
        match plan(args, &env, &answers) {
            Outcome::Done(r) => return r,
            Outcome::Need(q) => answers.push(answer(&q)),
        }
    }
    panic!("planning did not finish")
}

fn args_of(step: &Step) -> Vec<&str> {
    step.args.iter().map(String::as_str).collect()
}

#[test]
fn rejects_options_and_shell_expressions() {
    for name in ["", "--help", "-S", ".hidden", "a;b", "$(id)", "a b", "a/b"] {
        assert!(PackageName::new(name).is_err(), "{name}");
    }
    for name in ["nmap", "gcc-libs", "libc++", "python2.7", "foo@bar"] {
        assert!(PackageName::new(name).is_ok(), "{name}");
    }
}

#[test]
fn validates_targets() {
    for (host, is_ip) in [
        ("localhost", false),
        ("archlinux.org", false),
        ("archlinux.org.", false),
        ("127.0.0.1", true),
        ("::1", true),
    ] {
        assert!(validate_host(host, is_ip).is_ok());
    }
    for host in [
        "",
        "https://archlinux.org",
        "host:443",
        "-host",
        "a..b",
        "a b",
        "$(id)",
    ] {
        assert!(validate_host(host, false).is_err());
    }
}

#[test]
fn package_option_injection_is_rejected() {
    for cmd in ["install", "uninstall", "update"] {
        assert!(plan_of(&[cmd, "--root"]).is_err());
    }
}

#[test]
fn shell_text_stays_one_argument() {
    let p = plan_of(&["search", "video editor; touch /tmp/evil"]).unwrap();
    assert_eq!(
        p.steps[0].args,
        ["-Ss", "--", "video editor; touch /tmp/evil"]
    );
}

#[test]
fn arch_upgrade_is_full() {
    assert_eq!(
        plan_of(&["update", "firefox"]).unwrap().steps[0].args,
        ["-Syu", "--", "firefox"]
    );
}

#[test]
fn destructive_plans_require_confirmation() {
    for cmd in ["reboot", "shutdown", "sleep"] {
        assert!(plan_of(&[cmd]).unwrap().confirm);
    }
    assert!(plan_of(&["kill", "4821"]).unwrap().confirm);
}

#[test]
fn protected_paths_are_rejected() {
    for path in ["/", "/etc", "/usr", "/root", "/proc/1"] {
        assert!(plan_of(&["delete", path]).is_err());
    }
}

#[test]
fn invalid_mutations_are_rejected() {
    for args in [
        vec!["kill", "0"],
        vec!["kill", "1"],
        vec!["permissions", "file", "999"],
        vec!["ip", "eth0", "add", "1.1.1.1/64"],
        vec!["dns", "eth0", "nonsense"],
    ] {
        assert!(plan_of(&args).is_err());
    }
}

#[test]
fn process_names_are_literal() {
    assert_eq!(process_pattern("a.b").unwrap(), "a\\.b");
}

#[test]
fn process_patterns_escape_every_special_character() {
    assert_eq!(process_pattern("a+(b)|c").unwrap(), "a\\+\\(b\\)\\|c");
    assert_eq!(
        process_pattern("sixteen-letters!").unwrap_err(),
        "Process names longer than 15 bytes require an explicit PID"
    );
    assert!(process_pattern("-x").is_err());
}

#[test]
fn package_names_reach_pacman_after_separator() {
    let p = plan_of(&["install", "nmap"]).unwrap();
    assert_eq!(p.steps.len(), 1);
    assert_eq!(p.steps[0].program, "/usr/bin/pacman");
    assert_eq!(args_of(&p.steps[0]), ["-S", "--needed", "--", "nmap"]);
    assert!(!p.confirm);
    assert_eq!(
        plan_of(&["install", "a;b"]).unwrap_err(),
        "Invalid package name: a;b"
    );
    assert_eq!(plan_of(&["update"]).unwrap().steps[0].args, ["-Syu"]);
    assert_eq!(
        plan_of(&["update", "firefox"]).unwrap().notes,
        ["Arch: full system upgrade plus this package; partial upgrades are not performed."]
    );
}

#[test]
fn unknown_commands_point_to_help() {
    assert_eq!(
        plan_of(&["frobnicate"]).unwrap_err(),
        "Invalid command or arguments. Run: mono help <command>"
    );
    assert!(plan_of(&[]).is_err());
}

#[test]
fn kill_refuses_own_process() {
    assert_eq!(plan_of(&["kill", "4242"]).unwrap_err(), "Refusing this PID");
    let p = plan_of(&["kill", "firefox"]).unwrap();
    assert_eq!(args_of(&p.steps[0]), ["-KILL", "-x", "--", "firefox"]);
    assert!(p.confirm);
}

#[test]
fn stopping_a_program_is_confirmed() {
    let p = plan_of(&["stop", "firefox"]).unwrap();
    assert!(p.confirm);
    assert_eq!(p.steps[0].program, "/usr/bin/pkill");
    assert_eq!(args_of(&p.steps[0]), ["-TERM", "-x", "--", "firefox"]);
    let started = plan_of(&["start", "firefox"]).unwrap();
    assert!(!started.confirm);
    assert!(started.steps[0].detached);
    assert_eq!(
        plan_of(&["restart", "firefox"]).unwrap_err(),
        "Application restart is not supported; specify a systemd service"
    );
}

#[test]
fn paths_are_resolved_from_home_and_working_directory() {
    let p = plan_of(&["read", "~/notes.txt"]).unwrap();
    assert_eq!(args_of(&p.steps[0]), ["--", "/home/ana/notes.txt"]);
    let p = plan_of(&["copy", "a.txt", "/tmp/b.txt"]).unwrap();
    assert_eq!(
        args_of(&p.steps[0]),
        ["-a", "-i", "--", "/home/ana/a.txt", "/tmp/b.txt"]
    );
    assert_eq!(plan_of(&["read", ""]).unwrap_err(), "Empty path");
}

#[test]
fn deletion_uses_trash_by_default() {
    let p = plan_of(&["delete", "notes.txt"]).unwrap();
    assert!(p.confirm);
    assert_eq!(p.steps.len(), 1);
    assert_eq!(p.steps[0].program, "/usr/bin/gio");
    assert_eq!(args_of(&p.steps[0]), ["trash", "--", "/home/ana/notes.txt"]);
    assert_eq!(
        p.delete_args,
        Some(vec!["delete".to_string(), "/home/ana/notes.txt".to_string()])
    );
    assert_eq!(
        p.describe(),
        vec!["DELETE\nОбъект: /home/ana/notes.txt\nДействие: переместить в корзину\nРиск: 🟢 пользовательский объект\nНепустой каталог: не разрешён".to_string()]
    );
}

#[test]
fn permanent_deletion_of_directories() {
    let p = plan_of(&["delete", "photos", "--permanent", "--force"]).unwrap();
    assert_eq!(p.steps[0].program, "/usr/bin/rm");
    assert_eq!(
        args_of(&p.steps[0]),
        ["-r", "--one-file-system", "--", "/home/ana/photos"]
    );
    assert_eq!(
        plan_of(&["delete", "photos", "--permanent"]).unwrap_err(),
        "Каталог не пуст. Для удаления содержимого добавьте --force"
    );
    let p = plan_of(&["delete", "--permanent", "notes.txt"]).unwrap();
    assert_eq!(args_of(&p.steps[0]), ["--", "/home/ana/notes.txt"]);
    assert_eq!(p.steps[0].program, "/usr/bin/rm");
}

#[test]
fn force_does_not_lift_protection() {
    for args in [
        vec!["delete", "/etc", "--force"],
        vec!["delete", "--force", "--permanent", "/usr"],
        vec!["delete", "/home/ana"],
    ] {
        assert_eq!(
            plan_of(&args).unwrap_err(),
            "🔴 Удаление защищённого пути запрещено; --force не отменяет защиту"
        );
    }
}

#[test]
fn deletion_arguments_are_checked() {
    assert_eq!(
        plan_of(&["delete", "--recursive", "x"]).unwrap_err(),
        "Неизвестный параметр: --recursive. См. mono help delete"
    );
    assert_eq!(
        plan_of(&["delete", "a", "b"]).unwrap_err(),
        "Укажите один объект удаления"
    );
    assert_eq!(
        plan_of(&["delete"]).unwrap_err(),
        "Укажите объект: mono delete <target> [options]"
    );
    let p = plan_of(&["delete", "--", "-odd"]).unwrap();
    assert_eq!(args_of(&p.steps[0]), ["trash", "--", "/home/ana/-odd"]);
}

#[test]
fn delete_plan_alone_plans_the_target() {
    let env = env();
    let mut answers = Vec::new();
    let p = loop {
        match delete_plan(&["notes.txt"], &env, &answers) {
            Outcome::Done(r) => break r.unwrap(),
            Outcome::Need(q) => answers.push(answer(&q)),
        }
    };
    assert_eq!(p.steps[0].program, "/usr/bin/gio");
}

#[test]
fn system_users_are_not_deleted() {
    assert_eq!(
        plan_of(&["delete", "user", "root"]).unwrap_err(),
        "Refusing deletion of a system user"
    );
    let p = plan_of(&["delete", "user", "bob"]).unwrap();
    assert!(p.confirm);
    assert_eq!(args_of(&p.steps[0]), ["--", "bob"]);
    assert!(plan_of(&["create", "user", "Bob"]).is_err());
}

#[test]
fn format_is_confirmed_with_the_device() {
    let p = plan_of(&["format", "sdb1", "ext4"]).unwrap();
    assert!(p.confirm);
    assert_eq!(p.format_device.as_deref(), Some("/dev/sdb1"));
    assert_eq!(p.steps[0].program, "/usr/bin/mkfs.ext4");
    assert_eq!(args_of(&p.steps[0]), ["/dev/sdb1"]);
    assert_eq!(
        plan_of(&["format", "sdb1", "ntfs"]).unwrap_err(),
        "Supported filesystems: ext4, vfat/fat32, exfat"
    );
    assert_eq!(
        plan_of(&["format", "nothing", "ext4"]).unwrap_err(),
        "Device: No such file or directory (os error 2)"
    );
}

#[test]
fn unmounted_partition_passes_format_validation() {
    let mut answers = Vec::new();
    let r = loop {
        match validate_format("/dev/sdb1", &answers) {
            Outcome::Done(r) => break r,
            Outcome::Need(q) => answers.push(answer(&q)),
        }
    };
    assert!(r.is_ok());
}

#[test]
fn addresses_and_dns_changes() {
    let p = plan_of(&["ip", "eth0", "add", "10.0.0.2/24"]).unwrap();
    assert!(p.confirm);
    assert_eq!(args_of(&p.steps[0]), ["address", "add", "10.0.0.2/24", "dev", "eth0"]);
    assert_eq!(
        plan_of(&["ip", "eth0", "add", "10.0.0.2"]).unwrap_err(),
        "Expected IP/prefix"
    );
    let p = plan_of(&["dns", "eth0", "9.9.9.9"]).unwrap();
    assert_eq!(p.steps[0].program, "/usr/bin/resolvectl");
    assert!(p.confirm);
}

#[test]
fn ports_filter_by_number() {
    let p = plan_of(&["ports", "22"]).unwrap();
    assert_eq!(args_of(&p.steps[0]), ["-lntup", "sport = :22"]);
    assert_eq!(plan_of(&["ports", "0"]).unwrap_err(), "Invalid port");
    assert!(plan_of(&["ports", "http"]).is_err());
}

#[test]
fn bluetooth_names_are_looked_up() {
    let p = plan_of(&["connect", "bluetooth", "Headset"]).unwrap();
    assert_eq!(
        args_of(&p.steps[0]),
        ["--timeout", "20", "connect", "AA:BB:CC:DD:EE:FF"]
    );
    assert!(plan_of(&["connect", "bluetooth", "Keyboard"]).is_err());
}

#[test]
fn lock_uses_the_session() {
    let p = plan_of(&["lock"]).unwrap();
    assert_eq!(args_of(&p.steps[0]), ["lock-session", "3"]);
    assert!(!p.confirm);
}

#[test]
fn plan_add_prefixes_usr_bin() {
    let mut p = Plan::default();
    p.add("ls", &["-l", "--", "x"]);
    assert_eq!(p.steps[0].program, "/usr/bin/ls");
    assert_eq!(args_of(&p.steps[0]), ["-l", "--", "x"]);
    assert!(!p.steps[0].detached);
    assert_eq!(p.describe(), vec!["/usr/bin/ls [\"-l\", \"--\", \"x\"]".to_string()]);
}

#[test]
fn package_name_keeps_its_text() {
    assert_eq!(PackageName::new("nmap").unwrap().as_str(), "nmap");
    assert_eq!(
        PackageName::new("-S").unwrap_err(),
        "Invalid package name: -S"
    );
}

#[test]
fn network_targets_and_ports() {
    assert!(check_target("archlinux.org", false, 443).is_ok());
    assert_eq!(
        check_target("archlinux.org", false, 0).unwrap_err(),
        "Port must be 1..65535"
    );
    assert_eq!(
        preview_network("archlinux.org", false, "443").unwrap(),
        "DNS resolution and TCP connection to archlinux.org, port 443 (not executed)"
    );
    assert_eq!(
        preview_network("archlinux.org", false, "70000").unwrap_err(),
        "Port must be 1..65535"
    );
    assert_eq!(
        preview_network("host:443", false, "443").unwrap_err(),
        "Expected a hostname or IP address, without URL or port"
    );
}

#[test]
fn rechecking_a_deletion_gives_the_same_plan() {
    for args in [
        vec!["delete", "notes.txt"],
        vec!["delete", "--permanent", "--force", "photos"],
    ] {
        let p = plan_of(&args).unwrap();
        let d = p.delete_args.clone().unwrap();
        let d: Vec<&str> = d.iter().map(String::as_str).collect();
        let q = plan_of(&d).unwrap();
        assert_eq!(q.delete_args, p.delete_args);
        assert_eq!(q.description, p.description);
        assert!(q.confirm);
        assert_eq!(q.steps.len(), p.steps.len());
        for (a, b) in q.steps.iter().zip(p.steps.iter()) {
            assert_eq!(a.program, b.program);
            assert_eq!(a.args, b.args);
            assert_eq!(a.detached, b.detached);
        }
    }
}

#[test]
fn plans_run_programs_from_usr_bin() {
    for args in [
        vec!["start", "firefox"],
        vec!["usage"],
        vec!["connect", "wifi", "Home"],
        vec!["create", "file", "new.txt"],
        vec!["delete", "notes.txt"],
    ] {
        let p = plan_of(&args).unwrap();
        assert!(!p.steps.is_empty());
        for s in &p.steps {
            assert!(s.program.starts_with("/usr/bin/") || (s.program == "@create-file" && args[1] == "file"));
            if s.detached {
                assert!(s.args.is_empty());
            }
        }
    }
}
