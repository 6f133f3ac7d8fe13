use monux::cli::{probe, report_check, Attempt};
use monux::diagnostics::{diagnose, Check, Health, Section};
use monux::evaluate::{memory_values, network_result, storage_rows, storage_summary, Capacity};
use monux::platform::{platform, Arch};
use monux::report::{check_section, dry_run_lines, report};

/// The storage check over a `df -P` listing, with the usage thresholds of
/// the diagnostics (85% warning, 95% error).
fn storage_from(listing: &str) -> Result<Check, String> {
    let mut measured = Vec::new();
    for row in storage_rows(listing) {
        let Ok(percent) = row.capacity.parse::<f64>() else {
            continue;
        };
        let health = if percent >= 95.0 {
            Health::Error
        } else if percent >= 85.0 {
            Health::Warning
        } else {
            Health::Good
        };
        measured.push(Capacity {
            health,
            problem: format!("{}: {percent:.0}% used", row.mount),
        });
    }
    storage_summary(measured)
}

#[test]
fn unavailable_is_not_a_problem_or_success() {
    assert!(!Health::Unknown.problem());
    assert!(!Health::Skipped.problem());
    assert!(Health::Warning.problem());
    assert!(Health::Error.problem());
}

#[test]
fn memory_uses_available_not_free() {
    assert_eq!(
        memory_values("MemTotal: 1000 kB\nMemFree: 10 kB\nMemAvailable: 600 kB\n").unwrap(),
        (1000, 600)
    );
}

#[test]
fn invalid_memory_is_not_ok() {
    assert!(memory_values("MemTotal: 0 kB\nMemAvailable: 0 kB").is_err());
    assert!(memory_values("MemTotal: 10 kB").is_err());
}

#[test]
fn storage_reports_full_mounts() {
    let c = storage_from(
        "Filesystem 1-blocks Used Available Capacity Mounted on\n/dev/sda 100 96 4 96% /\n",
    )
    .unwrap();
    assert_eq!(c.health, Health::Error);
    assert!(c.details[1].contains("96%"));
}

#[test]
fn empty_storage_is_unknown() {
    assert!(storage_from("Filesystem capacity").is_err());
}

#[test]
fn separates_dns_from_tcp() {
    assert_eq!(network_result(Some(false), true).health, Health::Error);
    assert!(network_result(Some(false), true).details[0].contains("available"));
    assert_eq!(network_result(Some(true), false).health, Health::Warning);
    assert_eq!(network_result(None, true).health, Health::Unknown);
}

#[test]
fn detects_platform_from_kernel() {
    assert_eq!(platform("6.18.33.2-microsoft-standard-WSL2"), "WSL2");
    assert_eq!(platform("4.4.0-Microsoft"), "WSL");
    assert_eq!(platform("6.12.1-arch1-1"), "Linux");
}

#[test]
fn health_labels_are_fixed() {
    assert_eq!(Health::Good.label(), "OK");
    assert_eq!(Health::Warning.label(), "WARNING");
    assert_eq!(Health::Error.label(), "ERROR");
    assert_eq!(Health::Unknown.label(), "UNKNOWN");
    assert_eq!(Health::Skipped.label(), "SKIPPED");
    assert!(!Health::Good.problem());
}

#[test]
fn check_new_holds_one_detail() {
    let c = Check::new("Boot", Health::Warning, "degraded".to_string());
    assert_eq!(c.name, "Boot");
    assert_eq!(c.health, Health::Warning);
    assert_eq!(c.details, vec!["degraded".to_string()]);
}

#[test]
fn system_diagnosis_covers_every_section() {
    let all = diagnose("system").unwrap();
    assert_eq!(all.len(), 12);
    assert_eq!(all[0], Section::System);
    assert_eq!(all[11], Section::Logs);
    assert_eq!(diagnose("memory").unwrap(), vec![Section::Memory]);
    assert_eq!(
        diagnose("disk").unwrap_err(),
        "Unknown diagnostic section: disk. Run mono help diagnose"
    );
}

#[test]
fn section_names_round_trip() {
    for s in Section::all() {
        assert_eq!(Section::named(s.name()), Some(s));
    }
    assert_eq!(Section::named("System"), None);
}

#[test]
fn unknown_report_section_points_to_help() {
    assert_eq!(check_section("cpu").unwrap(), Section::Cpu);
    assert_eq!(
        check_section("gpu").unwrap_err(),
        "Unknown section: gpu. Run mono help diagnose"
    );
}

#[test]
fn dry_run_names_network_probes() {
    assert_eq!(
        dry_run_lines(Section::Network),
        vec![
            "Diagnostics: network. Read-only checks; nothing executed.".to_string(),
            "Network probes: DNS archlinux.org; TCP/443 to 1.1.1.1 or 9.9.9.9.".to_string(),
        ]
    );
    assert_eq!(
        dry_run_lines(Section::Boot),
        vec!["Diagnostics: boot. Read-only checks; nothing executed.".to_string()]
    );
}

#[test]
fn report_lists_problems_and_suggestions() {
    let checks = vec![
        Check::new("System", Health::Good, "fine".to_string()),
        Check::new("CPU", Health::Warning, "busy".to_string()),
        Check::new("Temperature", Health::Skipped, "none".to_string()),
        Check::new("Logs", Health::Unknown, "denied".to_string()),
    ];
    let lines = report(Section::System, &checks);
    assert_eq!(
        lines,
        vec![
            "Monux System Diagnostics\n",
            "System        OK",
            "CPU           WARNING",
            "Temperature   SKIPPED",
            "Logs          UNKNOWN",
            "\nProblems found: 1",
            "Unavailable: 1; skipped: 1",
            "\n[!] CPU",
            "    busy",
            "\n[?] Temperature",
            "    none",
            "\n[?] Logs",
            "    denied",
            "\nRun:",
            "    mono diagnose cpu",
        ]
    );
}

#[test]
fn single_section_report_details_healthy_checks() {
    let checks = vec![Check::new("Filesystems", Health::Good, "rw".to_string())];
    let lines = report(Section::Filesystems, &checks);
    assert_eq!(
        lines,
        vec![
            "Monux System Diagnostics\n",
            "Filesystems   OK",
            "\nProblems found: 0",
            "\n[+] Filesystems",
            "    rw",
        ]
    );
}

#[test]
fn storage_keeps_five_problem_lines() {
    let mut listing = String::from("Filesystem 1-blocks Used Available Capacity Mounted on\n");
    for i in 0..7 {
        listing.push_str(&format!("/dev/sd{i} 100 90 10 90% /mnt/disk {i}\n"));
    }
    let c = storage_from(&listing).unwrap();
    assert_eq!(c.health, Health::Warning);
    assert_eq!(c.details.len(), 6);
    assert_eq!(
        c.details[0],
        "Checked capacity of 7 mounted filesystems (excluding temporary/read-only image types)."
    );
    assert_eq!(c.details[1], "/mnt/disk 0: 90% used");
}

#[test]
fn storage_rows_skip_short_lines() {
    let rows = storage_rows("header\nshort line\n/dev/a 1 2 3 40% /home\n");
    assert_eq!(rows.len(), 1);
    assert_eq!(rows[0].capacity, "40");
    assert_eq!(rows[0].mount, "/home");
}

#[test]
fn arch_status_and_install_gates() {
    let arch = Arch;
    let s = arch.status_from(
        "6.12.1-arch1-1".to_string(),
        "NAME=\"Arch Linux\"\nPRETTY_NAME=\"Arch Linux\"\nID=arch\n",
        "x86_64".to_string(),
        "systemd\n",
        "root".to_string(),
    );
    assert_eq!(s.platform, "Linux");
    assert_eq!(s.os, "Arch Linux");
    assert_eq!(s.init, "systemd");
    assert_eq!(s.package_manager, "pacman");
    assert!(arch.install_supported("ID=arch\n").is_ok());
    assert_eq!(
        arch.install_supported("ID=debian\n").unwrap_err(),
        "Package installation currently supports Arch Linux only"
    );
    assert!(arch.install_as_root("0").is_ok());
    assert_eq!(
        arch.install_as_root("1000").unwrap_err(),
        "Package installation requires root: sudo mono install <package>"
    );
    assert_eq!(
        arch.pacman_result(false, "exit status: 1").unwrap_err(),
        "pacman failed: exit status: 1"
    );
    let n = arch.network_from("lo UNKNOWN".to_string(), "default via 1", "none");
    assert_eq!(n.routes, "IPv4:\ndefault via 1\nIPv6:\nnone");
}

#[test]
fn tcp_probe_stops_at_first_success() {
    let addresses = vec!["10.0.0.1:443".to_string(), "10.0.0.2:443".to_string(), "10.0.0.3:443".to_string()];
    let p = probe(&addresses, &vec![]);
    assert_eq!(p.next, Some(0));
    let attempts = vec![Attempt::Failed("refused".to_string()), Attempt::Connected, Attempt::Failed("late".to_string())];
    let p = probe(&addresses, &attempts);
    assert_eq!(p.next, None);
    assert_eq!(p.connected, Some(1));
    assert_eq!(p.failures, vec!["10.0.0.1:443: refused".to_string()]);
    let (lines, result) = report_check("example.org", 443, false, &addresses, &p);
    assert!(result.is_ok());
    assert_eq!(lines[0], "Target: example.org, TCP port 443");
    assert_eq!(lines[1], "DNS OK: 10.0.0.1:443, 10.0.0.2:443, 10.0.0.3:443");
    assert_eq!(lines[2], "TCP attempt: 10.0.0.1:443: refused");
    assert_eq!(
        lines[3],
        "TCP OK: 10.0.0.2:443\nTCP connection succeeded; TLS/HTTP not checked."
    );
}

#[test]
fn tcp_budget_ends_the_check() {
    let addresses = vec!["1.1.1.1:443".to_string(), "9.9.9.9:443".to_string()];
    let p = probe(&addresses, &vec![Attempt::OutOfTime]);
    assert_eq!(p.next, None);
    assert_eq!(p.connected, None);
    assert_eq!(
        p.failures,
        vec!["TCP time budget exhausted; remaining addresses not checked".to_string()]
    );
    let (lines, result) = report_check("1.1.1.1", 443, true, &vec![addresses[0].clone()], &p);
    assert_eq!(lines[1], "IP (DNS skipped): 1.1.1.1:443");
    assert_eq!(
        result.unwrap_err(),
        "TCP check failed. This does not prove that the internet is unavailable."
    );
}
