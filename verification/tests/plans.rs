use monux::command::Plan;
use monux::commands::plan;
use monux::probe::{Answer, Environment, Location, Outcome, Query, RunOutput, Var};

/// The environment of a user in their home directory.
fn env() -> Environment {
    Environment {
        home: Var::Value("/home/ana".to_string()),
        cwd: Location::Found("/home/ana".to_string()),
        visual: None,
        editor: None,
        session: Some("3".to_string()),
        pid: 4242,
        real_cwd: Some("/home/ana".to_string()),
        real_home: Some("/home/ana".to_string()),
    }
}

fn is_ipv4(text: &str) -> bool {
    let parts: Vec<&str> = text.split('.').collect();
    parts.len() == 4 && parts.iter().all(|p| p.parse::<u8>().is_ok())
}

/// A small system: paths lead to themselves, nothing exists but the home
/// directory and `/home/ana/notes.txt`, `/dev/sdb1` is an unmounted
/// partition, no name is a systemd service, and IPv4 addresses are the only
/// addresses.
fn answer(q: &Query) -> Answer {
    let ok = |stdout: &str| {
        Answer::Ran(Ok(RunOutput {
            success: true,
            status: "exit status: 0".to_string(),
            stdout: stdout.to_string(),
            stderr: String::new(),
        }))
    };
    match q {
        Query::Exists(p) | Query::Present(p) => {
            Answer::Flag(p == "/home/ana" || p == "/home/ana/notes.txt")
        }
        Query::DevicePath(p) => {
            if p == "/dev/sdb1" || p == "sdb1" {
                Answer::Text(Ok("/dev/sdb1".to_string()))
            } else {
                Answer::Text(Err("No such file or directory (os error 2)".to_string()))
            }
        }
        Query::BlockDevice(p) => Answer::Checked(Ok(p == "/dev/sdb1")),
        Query::Canonical(p) => Answer::Location(Location::Found(p.clone())),
        Query::Entry(p) => Answer::Checked(Ok(p == "/home/ana" || p == "/home/ana/photos")),
        Query::DirEntries(p) => Answer::Checked(Ok(p == "/home/ana/photos")),
        Query::Run(program, args) => {
            if program == "/usr/bin/id" {
                ok(if args[1] == "root" { "0" } else { "1001" })
            } else if program == "/usr/bin/lsblk" && args[1] == "TYPE" {
                ok("part")
            } else if program == "/usr/bin/lsblk" {
                ok("")
            } else if program == "/usr/bin/bluetoothctl" {
                ok("Device AA:BB:CC:DD:EE:FF Headset\nDevice 11:22:33:44:55:66 Speaker")
            } else {
                ok("not-found")
            }
        }
        Query::IpAddress(t) => {
            if is_ipv4(t) {
                Answer::Checked(Ok(true))
            } else {
                Answer::Checked(Err("invalid IP address syntax".to_string()))
            }
        }
        Query::ReadFile(_) => Answer::Text(Ok("Filename Type Size Used Priority\n".to_string())),
    }
}

/// Plans a command line, answering every query from the small system.
fn plan_of(args: &[&str]) -> Result<Plan, String> {
    let env = env();
    let mut answers = Vec::new();
    for _ in 0..20 {
        match plan(args, &env, &answers) {
            Outcome::Done(r) => return r,
            Outcome::Need(q) => answers.push(answer(&q)),
        }
    }
    panic!("planning did not finish")
}



fn run(p: &Plan) -> Vec<(String, Vec<String>)> {
    p.steps.iter().map(|s| (s.program.clone(), s.args.clone())).collect()
}

fn one(program: &str, args: &[&str]) -> Vec<(String, Vec<String>)> {
    vec![(program.to_string(), args.iter().map(|a| a.to_string()).collect())]
}

#[test]
fn info_tells_paths_devices_and_packages_apart() {
    assert_eq!(run(&plan_of(&["info", "/home/ana"]).unwrap()), one("/usr/bin/stat", &["--", "/home/ana"]));
    assert_eq!(run(&plan_of(&["info", "nmap"]).unwrap()), one("/usr/bin/pacman", &["-Si", "--", "nmap"]));
    assert_eq!(run(&plan_of(&["info", "/dev/sdb1"]).unwrap()), one("/usr/bin/lsblk", &["-O", "--", "/dev/sdb1"]));
    assert_eq!(plan_of(&["info", "a;b"]).unwrap_err(), "Invalid package name: a;b");
}

#[test]
fn editor_comes_from_the_environment() {
    let p = plan_of(&["edit", "notes.txt"]).unwrap();
    assert_eq!(run(&p), one("/usr/bin/micro", &["/home/ana/notes.txt"]));
    let mut env = env();
    env.visual = Some("vim -u NONE".to_string());
    match plan(&["edit", "x"], &env, &vec![]) {
        Outcome::Done(Err(e)) => assert_eq!(e, "EDITOR/VISUAL must be one executable path without arguments"),
        _ => panic!("expected a refusal"),
    }
    env.visual = None;
    env.editor = Some("/opt/bin/hx".to_string());
    match plan(&["edit", "x"], &env, &vec![]) {
        Outcome::Done(Ok(p)) => assert_eq!(p.steps[0].program, "/opt/bin/hx"),
        _ => panic!("expected a plan"),
    }
}

#[test]
fn open_urls_paths_and_applications() {
    assert_eq!(run(&plan_of(&["open", "https://archlinux.org"]).unwrap()), one("/usr/bin/xdg-open", &["https://archlinux.org"]));
    assert_eq!(run(&plan_of(&["open", "notes.txt"]).unwrap()), one("/usr/bin/xdg-open", &["/home/ana/notes.txt"]));
    let p = plan_of(&["open", "firefox"]).unwrap();
    assert_eq!(p.steps[0].program, "/usr/bin/firefox");
    assert!(p.steps[0].detached);
    assert_eq!(plan_of(&["open", "a b"]).unwrap_err(), "Expected an application executable name");
}

#[test]
fn usage_of_system_paths_and_processes() {
    let p = plan_of(&["usage"]).unwrap();
    assert_eq!(
        run(&p),
        vec![
            ("/usr/bin/free".to_string(), vec!["-h".to_string()]),
            ("/usr/bin/ps".to_string(), vec!["-eo".to_string(), "pid,comm,%cpu,%mem,rss".to_string(), "--sort=-rss".to_string()]),
        ]
    );
    assert_eq!(run(&plan_of(&["usage", "/home/ana"]).unwrap()), one("/usr/bin/df", &["-h", "--", "/home/ana"]));
    assert_eq!(run(&plan_of(&["usage", "firefox"]).unwrap()), one("/usr/bin/ps", &["-C", "firefox", "-o", "pid,comm,%cpu,%mem,rss"]));
}

#[test]
fn find_starts_in_the_working_directory() {
    assert_eq!(run(&plan_of(&["find", "*.txt"]).unwrap()), one("/usr/bin/find", &["/home/ana/.", "-name", "*.txt", "-print"]));
    assert_eq!(run(&plan_of(&["find", "*.txt", "/tmp"]).unwrap()), one("/usr/bin/find", &["/tmp", "-name", "*.txt", "-print"]));
}

#[test]
fn checks_of_disks_and_network() {
    let p = plan_of(&["check", "disk", "sdb1"]).unwrap();
    assert_eq!(run(&p), one("/usr/bin/smartctl", &["-H", "/dev/sdb1"]));
    assert_eq!(p.notes.len(), 1);
    let p = plan_of(&["check", "network"]).unwrap();
    assert_eq!(p.steps.len(), 2);
    assert_eq!(p.steps[1].args, ["route", "get", "1.1.1.1"]);
}

#[test]
fn listings() {
    assert_eq!(run(&plan_of(&["list", "apps"]).unwrap()), one("/usr/bin/pacman", &["-Q"]));
    assert_eq!(run(&plan_of(&["disks"]).unwrap()), one("/usr/bin/lsblk", &["-o", "NAME,TYPE,SIZE,FSTYPE,LABEL,MOUNTPOINTS"]));
    assert_eq!(run(&plan_of(&["list", "disks"]).unwrap()), run(&plan_of(&["disks"]).unwrap()));
    assert_eq!(run(&plan_of(&["list", "services"]).unwrap()), one("/usr/bin/systemctl", &["--no-pager", "list-unit-files", "--type=service"]));
    assert!(plan_of(&["list", "fonts"]).is_err());
}

#[test]
fn services_and_logs() {
    assert_eq!(run(&plan_of(&["status", "sshd"]).unwrap()), one("/usr/bin/systemctl", &["--no-pager", "status", "--", "sshd.service"]));
    assert_eq!(run(&plan_of(&["status", "network"]).unwrap()), one("/usr/bin/ip", &["-brief", "address"]));
    let p = plan_of(&["enable", "sshd"]).unwrap();
    assert!(p.confirm);
    assert_eq!(run(&p), one("/usr/bin/systemctl", &["enable", "--", "sshd.service"]));
    assert_eq!(run(&plan_of(&["logs"]).unwrap()), one("/usr/bin/journalctl", &["--no-pager", "-n", "100"]));
    assert_eq!(run(&plan_of(&["logs", "boot"]).unwrap()), one("/usr/bin/journalctl", &["--no-pager", "-b", "-n", "100"]));
    assert_eq!(run(&plan_of(&["logs", "nginx.socket"]).unwrap()), one("/usr/bin/journalctl", &["--no-pager", "-u", "nginx.socket", "-n", "100"]));
    assert_eq!(plan_of(&["logs", "a/b"]).unwrap_err(), "Invalid service name");
}

#[test]
fn files_and_directories() {
    let p = plan_of(&["create", "file", "new.txt"]).unwrap();
    assert_eq!(p.steps[0].program, "@create-file");
    assert_eq!(p.steps[0].args, ["/home/ana/new.txt"]);
    assert_eq!(plan_of(&["create", "file", "notes.txt"]).unwrap_err(), "Target already exists");
    assert_eq!(run(&plan_of(&["create", "dir", "x"]).unwrap()), one("/usr/bin/mkdir", &["--", "/home/ana/x"]));
    assert_eq!(run(&plan_of(&["move", "a", "b"]).unwrap()), one("/usr/bin/mv", &["-i", "--", "/home/ana/a", "/home/ana/b"]));
}

#[test]
fn modes_and_owners() {
    let p = plan_of(&["permissions", "run.sh", "executable"]).unwrap();
    assert!(p.confirm);
    assert_eq!(run(&p), one("/usr/bin/chmod", &["u+x", "--", "/home/ana/run.sh"]));
    assert_eq!(run(&plan_of(&["permissions", "run.sh", "0755"]).unwrap()), one("/usr/bin/chmod", &["0755", "--", "/home/ana/run.sh"]));
    assert_eq!(run(&plan_of(&["permissions", "run.sh"]).unwrap()), one("/usr/bin/stat", &["-c", "%A %a %n", "--", "/home/ana/run.sh"]));
    assert_eq!(plan_of(&["permissions", "run.sh", "75"]).unwrap_err(), "Mode must be executable or 3/4 octal digits");
    let p = plan_of(&["owner", "run.sh", "bob"]).unwrap();
    assert!(p.confirm);
    assert_eq!(run(&p), one("/usr/bin/chown", &["bob", "--", "/home/ana/run.sh"]));
    assert_eq!(run(&plan_of(&["owner", "run.sh"]).unwrap()), one("/usr/bin/stat", &["-c", "%U:%G (%u:%g) %n", "--", "/home/ana/run.sh"]));
}

#[test]
fn wifi_and_bluetooth() {
    let p = plan_of(&["connect", "wifi", "Home Net"]).unwrap();
    assert!(p.confirm);
    assert_eq!(p.steps[1].args, ["--ask", "device", "wifi", "connect", "Home Net"]);
    let p = plan_of(&["disconnect", "wifi"]).unwrap();
    assert_eq!(run(&p), one("/usr/bin/nmcli", &["radio", "wifi", "off"]));
    assert!(p.confirm);
    assert_eq!(run(&plan_of(&["scan", "wifi"]).unwrap()), one("/usr/bin/nmcli", &["device", "wifi", "list", "--rescan", "yes"]));
    assert_eq!(run(&plan_of(&["scan", "bluetooth"]).unwrap()), one("/usr/bin/bluetoothctl", &["--timeout", "10", "scan", "on"]));
    let p = plan_of(&["disconnect", "bluetooth", "11:22:33:44:55:66"]).unwrap();
    assert_eq!(p.steps[0].args, ["--timeout", "20", "disconnect", "11:22:33:44:55:66"]);
}

#[test]
fn network_listings() {
    assert_eq!(run(&plan_of(&["ip"]).unwrap()), one("/usr/bin/ip", &["-brief", "address"]));
    assert_eq!(run(&plan_of(&["network", "interfaces"]).unwrap()), one("/usr/bin/ip", &["-brief", "address"]));
    assert_eq!(run(&plan_of(&["ip", "eth0"]).unwrap()), one("/usr/bin/ip", &["address", "show", "dev", "eth0"]));
    assert_eq!(run(&plan_of(&["dns"]).unwrap()), one("/usr/bin/cat", &["/etc/resolv.conf"]));
    assert_eq!(run(&plan_of(&["ports"]).unwrap()), one("/usr/bin/ss", &["-lntup"]));
    assert_eq!(run(&plan_of(&["ping", "archlinux.org"]).unwrap()), one("/usr/bin/ping", &["-c", "4", "-W", "2", "--", "archlinux.org"]));
    assert!(plan_of(&["ping", "-f"]).is_err());
}

#[test]
fn mounting_and_cleaning() {
    let p = plan_of(&["mount", "sdb1"]).unwrap();
    assert!(p.confirm);
    assert_eq!(run(&p), one("/usr/bin/udisksctl", &["mount", "-b", "/dev/sdb1"]));
    assert_eq!(run(&plan_of(&["unmount", "sdb1"]).unwrap()), one("/usr/bin/udisksctl", &["unmount", "-b", "/dev/sdb1"]));
    let p = plan_of(&["clean", "packages"]).unwrap();
    assert_eq!(run(&p), one("/usr/bin/pacman", &["-Sc"]));
    assert_eq!(p.notes, ["Clean package cache using pacman's interactive confirmation."]);
}

#[test]
fn power_actions() {
    assert_eq!(run(&plan_of(&["shutdown"]).unwrap()), one("/usr/bin/systemctl", &["poweroff"]));
    assert_eq!(run(&plan_of(&["sleep"]).unwrap()), one("/usr/bin/systemctl", &["suspend"]));
    assert_eq!(run(&plan_of(&["reboot"]).unwrap()), one("/usr/bin/systemctl", &["reboot"]));
    assert!(plan_of(&["reboot", "now"]).is_err());
}
