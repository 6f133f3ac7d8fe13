//! Evaluation of the data that diagnostic probes gather into check results.

use vstd::prelude::*;
use crate::diagnostics::{unknown, Check, Health};
use crate::numbers::{decimal, decimal_of, parse_u64, parse_u8, unsigned_value};
use crate::text::{
    append, append_lit, chars_of, contains_seq, equals, lines, lines_of, occurs_lit, string_of, texts,
    trim, trim_of, views, words, words_of, ends_with, ends_lit, lemma_views_push, lowercase,
    lowercase_of, starts_with, begins_lit, slice_of, split, split_of, string_of as text_of,
};

verus! {

/// What a bounded probe command produced: whether it exited successfully, and its output.
pub struct Output {
    pub success: bool,
    pub text: String,
}

/// The output of a probe command, refused when the command did not succeed.
pub fn command_result(o: Result<Output, String>) -> (r: Result<String, String>)
    ensures
        match o {
            Err(e) => r == Err::<String, String>(e),
            Ok(out) => if out.success {
                r == Ok::<String, String>(out.text)
            } else {
                r matches Err(e) && e@ == "Check unavailable or access denied"@
            },
        },
{
    match o {
        Err(e) => Err(e),
        Ok(out) => if out.success {
            Ok(out.text)
        } else {
            Err(string_of(chars_of("Check unavailable or access denied").as_slice()))
        },
    }
}

/// The health and text of the network check for a DNS result (`None` when
/// the DNS probe could not run) and a TCP result.
pub open spec fn network_outcome(dns: Option<bool>, tcp: bool) -> (Health, Seq<char>) {
    match dns {
        Some(true) => if tcp {
            (
                Health::Good,
                "DNS resolved archlinux.org; at least one numeric TCP/443 probe succeeded. This is not a full internet/TLS test."@,
            )
        } else {
            (
                Health::Warning,
                "DNS resolved archlinux.org, but TCP/443 probes failed. A firewall or endpoint restriction is possible; an internet outage is not established."@,
            )
        },
        Some(false) => if tcp {
            (
                Health::Error,
                "DNS resolution of archlinux.org failed. Numeric TCP/443 connectivity is available; the tested IP connection works independently of DNS."@,
            )
        } else {
            (
                Health::Error,
                "Both DNS and numeric TCP probes failed. The cause is undetermined; this alone does not prove a general internet outage."@,
            )
        },
        None => (
            Health::Unknown,
            "DNS check could not run. Numeric TCP probe: "@ + (if tcp {
                "reachable"@
            } else {
                "not reachable"@
            }) + "."@,
        ),
    }
}

/// The network check: DNS and TCP results are judged apart, so that a DNS
/// failure is not reported as a lost connection, nor the reverse.
pub fn network_result(dns: Option<bool>, tcp: bool) -> (r: Check)
    ensures
        r.name@ == "Network"@,
        r.health == network_outcome(dns, tcp).0,
        views(r.details@) == seq![network_outcome(dns, tcp).1],
{
    match dns {
        Some(true) => if tcp {
            Check::new(
                "Network",
                Health::Good,
                string_of(chars_of("DNS resolved archlinux.org; at least one numeric TCP/443 probe succeeded. This is not a full internet/TLS test.").as_slice()),
            )
        } else {
            Check::new(
                "Network",
                Health::Warning,
                string_of(chars_of("DNS resolved archlinux.org, but TCP/443 probes failed. A firewall or endpoint restriction is possible; an internet outage is not established.").as_slice()),
            )
        },
        Some(false) => if tcp {
            Check::new(
                "Network",
                Health::Error,
                string_of(chars_of("DNS resolution of archlinux.org failed. Numeric TCP/443 connectivity is available; the tested IP connection works independently of DNS.").as_slice()),
            )
        } else {
            Check::new(
                "Network",
                Health::Error,
                string_of(chars_of("Both DNS and numeric TCP probes failed. The cause is undetermined; this alone does not prove a general internet outage.").as_slice()),
            )
        },
        None => {
            let mut m: Vec<char> = Vec::new();
            append_lit(&mut m, "DNS check could not run. Numeric TCP probe: ");
            if tcp {
                append_lit(&mut m, "reachable");
            } else {
                append_lit(&mut m, "not reachable");
            }
            append_lit(&mut m, ".");
            unknown("Network", string_of(m.as_slice()))
        },
    }
}

/// The DNS verdict from the name lookup probe: resolved when the command
/// succeeded with output, failed when it failed or timed out, and `None` when
/// it could not run at all.
pub fn dns_answer(lookup: Result<Output, String>) -> (r: Option<bool>)
    ensures
        r == match lookup {
            Ok(o) => Some(o.success && trim(o.text@).len() > 0),
            Err(e) => if contains_seq(e@, "timed out"@) {
                Some(false)
            } else {
                None
            },
        },
{
    match lookup {
        Ok(o) => {
            let t = trim_of(chars_of(o.text.as_str()).as_slice());
            Some(o.success && t.len() > 0)
        },
        Err(e) => if occurs_lit(chars_of(e.as_str()).as_slice(), "timed out") {
            Some(false)
        } else {
            None
        },
    }
}

/// The first whitespace-separated word of `s`, or `unknown`.
pub open spec fn first_word_or_unknown(s: Seq<char>) -> Seq<char> {
    if words(s).len() > 0 {
        words(s)[0]
    } else {
        "unknown"@
    }
}

/// The system check from the kernel release and uptime texts.
pub fn system(kernel: Result<String, String>, uptime: Result<String, String>) -> (r: Check)
    ensures
        r.name@ == "System"@,
        match (kernel, uptime) {
            (Ok(k), Ok(u)) => r.health == Health::Good && views(r.details@) == seq![
                "Kernel: "@ + trim(k@) + "; uptime: "@ + first_word_or_unknown(u@)
                    + " seconds. Basic system data accessible."@,
            ],
            _ => r.health == Health::Unknown && views(r.details@) == seq![
                "Cannot read basic kernel/uptime data"@,
            ],
        },
{
    match (kernel, uptime) {
        (Ok(k), Ok(u)) => {
            let mut m: Vec<char> = Vec::new();
            append_lit(&mut m, "Kernel: ");
            append(&mut m, trim_of(chars_of(k.as_str()).as_slice()).as_slice());
            append_lit(&mut m, "; uptime: ");
            let w = words_of(chars_of(u.as_str()).as_slice());
            if w.len() > 0 {
                append(&mut m, w[0].as_slice());
            } else {
                append_lit(&mut m, "unknown");
            }
            append_lit(&mut m, " seconds. Basic system data accessible.");
            Check::new("System", Health::Good, string_of(m.as_slice()))
        },
        _ => unknown("System", string_of(chars_of("Cannot read basic kernel/uptime data").as_slice())),
    }
}

/// The health of a boot state reported by the service manager.
pub open spec fn boot_health(state: Seq<char>) -> Health {
    if state == "running"@ {
        Health::Good
    } else if state == "degraded"@ || state == "starting"@ || state == "initializing"@ {
        Health::Warning
    } else if state == "maintenance"@ {
        Health::Error
    } else {
        Health::Unknown
    }
}

/// The boot check from the reported system state.
pub fn boot(state: Result<String, String>) -> (r: Check)
    ensures
        r.name@ == "Boot"@,
        match state {
            Ok(text) => r.health == boot_health(trim(text@)) && views(r.details@) == seq![
                "Current boot state: "@ + trim(text@) + ". This does not audit previous boots."@,
            ],
            Err(e) => r.health == Health::Unknown && views(r.details@) == seq![e@],
        },
{
    match state {
        Ok(text) => {
            let t = trim_of(chars_of(text.as_str()).as_slice());
            let s = t.as_slice();
            let h = if equals(s, "running") {
                Health::Good
            } else if equals(s, "degraded") || equals(s, "starting") || equals(s, "initializing") {
                Health::Warning
            } else if equals(s, "maintenance") {
                Health::Error
            } else {
                Health::Unknown
            };
            let mut m: Vec<char> = Vec::new();
            append_lit(&mut m, "Current boot state: ");
            append(&mut m, s);
            append_lit(&mut m, ". This does not audit previous boots.");
            Check::new("Boot", h, string_of(m.as_slice()))
        },
        Err(e) => unknown("Boot", e),
    }
}


/// The first word of a line that names a service unit.
pub open spec fn first_service(ws: Seq<Seq<char>>) -> Option<Seq<char>>
    decreases ws.len(),
{
    if ws.len() == 0 {
        None
    } else if ends_with(ws[0], ".service"@) {
        Some(ws[0])
    } else {
        first_service(ws.drop_first())
    }
}

/// The service unit named on each line that names one, in order.
pub open spec fn service_names(ls: Seq<Seq<char>>) -> Seq<Seq<char>>
    decreases ls.len(),
{
    if ls.len() == 0 {
        Seq::empty()
    } else {
        let r = service_names(ls.drop_last());
        match first_service(words(ls.last())) {
            Some(n) => r.push(n),
            None => r,
        }
    }
}

/// The details of the services check for the failed units `names`: their
/// number, at most five of them, and how many more there are.
pub open spec fn services_details(names: Seq<Seq<char>>) -> Seq<Seq<char>> {
    let head = seq![decimal(names.len()) + " failed service(s)."@] + names.take(
        if names.len() < 5 {
            names.len() as int
        } else {
            5
        },
    );
    if names.len() > 5 {
        head.push("... and "@ + decimal((names.len() - 5) as nat) + " more"@)
    } else {
        head
    }
}

fn first_service_of(ws: &Vec<Vec<char>>) -> (r: Option<usize>)
    ensures
        match r {
            Some(k) => k < ws@.len() && first_service(texts(ws@)) == Some(ws@[k as int]@),
            None => first_service(texts(ws@)) is None,
        },
{
    let mut k: usize = 0;
    assert(texts(ws@).skip(0) =~= texts(ws@));
    while k < ws.len()
        invariant
            k <= ws@.len(),
            first_service(texts(ws@)) == first_service(texts(ws@).skip(k as int)),
        decreases ws.len() - k,
    {
        assert(texts(ws@).skip(k as int)[0] == ws@[k as int]@);
        if ends_lit(ws[k].as_slice(), ".service") {
            return Some(k);
        }
        assert(texts(ws@).skip(k as int).drop_first() =~= texts(ws@).skip(k + 1));
        k = k + 1;
    }
    None
}

/// The services check from the list of failed service units.
pub fn services(listing: Result<String, String>) -> (r: Check)
    ensures
        r.name@ == "Services"@,
        match listing {
            Ok(text) => {
                let names = service_names(lines(text@));
                &&& r.health == if names.len() == 0 {
                    Health::Good
                } else {
                    Health::Warning
                }
                &&& views(r.details@) == services_details(names)
            },
            Err(e) => r.health == Health::Unknown && views(r.details@) == seq![e@],
        },
{
    match listing {
        Err(e) => unknown("Services", e),
        Ok(text) => {
            let ls = lines_of(chars_of(text.as_str()).as_slice());
            let ghost lv = texts(ls@);
            let mut names: Vec<Vec<char>> = Vec::new();
            let mut i: usize = 0;
            assert(lv.take(0) =~= Seq::<Seq<char>>::empty());
            while i < ls.len()
                invariant
                    lv == texts(ls@),
                    i <= ls@.len(),
                    texts(names@) == service_names(lv.take(i as int)),
                decreases ls.len() - i,
            {
                assert(lv.take(i + 1).drop_last() =~= lv.take(i as int));
                assert(lv.take(i + 1).last() == ls@[i as int]@);
                let ws = words_of(ls[i].as_slice());
                match first_service_of(&ws) {
                    Some(k) => {
                        let n = crate::text::slice_of(ws[k].as_slice(), 0, ws[k].len());
                        assert(n@ =~= ws@[k as int]@);
                        proof {
                            crate::text::lemma_texts_push(names@, n);
                        }
                        names.push(n);
                    },
                    None => {},
                }
                i = i + 1;
            }
            assert(lv.take(ls@.len() as int) =~= lv);
            let ghost nv = texts(names@);
            let count = names.len();
            let mut first: Vec<char> = decimal_of(count as u64);
            append_lit(&mut first, " failed service(s).");
            let mut details: Vec<String> = Vec::new();
            details.push(string_of(first.as_slice()));
            let limit = if count < 5 {
                count
            } else {
                5
            };
            let mut j: usize = 0;
            assert(views(details@) =~= seq![first@] + nv.take(0));
            while j < limit
                invariant
                    nv == texts(names@),
                    count == names@.len(),
                    limit <= count,
                    j <= limit,
                    views(details@) == seq![first@] + nv.take(j as int),
                decreases limit - j,
            {
                let line = string_of(names[j].as_slice());
                proof {
                    lemma_views_push(details@, line);
                }
                details.push(line);
                assert(nv.take(j + 1) =~= nv.take(j as int).push(nv[j as int]));
                j = j + 1;
            }
            if count > 5 {
                let mut more: Vec<char> = Vec::new();
                append_lit(&mut more, "... and ");
                append(&mut more, decimal_of((count - 5) as u64).as_slice());
                append_lit(&mut more, " more");
                let line = string_of(more.as_slice());
                proof {
                    lemma_views_push(details@, line);
                }
                details.push(line);
            }
            let h = if count == 0 {
                Health::Good
            } else {
                Health::Warning
            };
            Check { name: "Services", health: h, details }
        },
    }
}

/// A line of a journal export in JSON form.
pub open spec fn is_record(line: Seq<char>) -> bool {
    line.len() > 0 && line[0] == '{'
}

/// The number of records in a journal export: every line must be a JSON
/// record; an empty export holds none.
pub open spec fn journal_records(text: Seq<char>) -> Option<nat> {
    let t = trim(text);
    if t.len() == 0 {
        Some(0)
    } else if forall|i: int| 0 <= i < lines(t).len() ==> is_record(#[trigger] lines(t)[i]) {
        Some(lines(t).len())
    } else {
        None
    }
}

/// Counts the records of a journal export, refusing output that is not one.
pub fn journal_count(text: &str) -> (r: Result<usize, String>)
    ensures
        match r {
            Ok(n) => journal_records(text@) == Some(n as nat),
            Err(e) => journal_records(text@) is None && e@ == "Journal output unavailable"@,
        },
{
    let t = trim_of(chars_of(text).as_slice());
    if t.len() == 0 {
        return Ok(0);
    }
    let ls = lines_of(t.as_slice());
    let mut i: usize = 0;
    while i < ls.len()
        invariant
            t@ == trim(text@),
            t@.len() > 0,
            texts(ls@) == lines(t@),
            i <= ls@.len(),
            forall|j: int| 0 <= j < i ==> is_record(#[trigger] lines(t@)[j]),
        decreases ls.len() - i,
    {
        assert(lines(t@)[i as int] == ls@[i as int]@);
        if ls[i].len() == 0 || ls[i][0] != '{' {
            assert(!is_record(lines(t@)[i as int]));
            return Err(string_of(chars_of("Journal output unavailable").as_slice()));
        }
        i = i + 1;
    }
    Ok(ls.len())
}

/// The journal can only be judged when it is readable.
pub fn journal_access(readable: bool) -> (r: Result<(), String>)
    ensures
        r is Ok <==> readable,
        r matches Err(e) ==> e@ == "System journal is absent or unreadable; no healthy state inferred"@,
{
    if readable {
        Ok(())
    } else {
        Err(string_of(chars_of("System journal is absent or unreadable; no healthy state inferred").as_slice()))
    }
}

/// A record count as shown in a report: exact below `cap`, else "at least `cap`".
pub open spec fn count_text(n: nat, cap: nat) -> Seq<char> {
    if n >= cap {
        "at least "@ + decimal(cap)
    } else {
        decimal(n)
    }
}

fn count_text_of(n: usize, cap: usize) -> (r: Vec<char>)
    ensures
        r@ == count_text(n as nat, cap as nat),
{
    if n >= cap {
        let mut m: Vec<char> = Vec::new();
        append_lit(&mut m, "at least ");
        append(&mut m, decimal_of(cap as u64).as_slice());
        m
    } else {
        decimal_of(n as u64)
    }
}

/// Whether a kernel release names the Windows Subsystem for Linux.
pub open spec fn is_wsl_kernel(kernel: Seq<char>) -> bool {
    contains_seq(lowercase(kernel), "microsoft"@)
}

/// Under WSL physical hardware is not observable: the hardware check is
/// skipped there, and needs the kernel journal elsewhere.
pub fn hardware_skip(kernel: &str) -> (r: Option<Check>)
    ensures
        match r {
            Some(c) => is_wsl_kernel(kernel@) && c.name@ == "Hardware"@ && c.health == Health::Skipped
                && views(c.details@) == seq![
                "WSL exposes virtual hardware; physical device health is not observable here."@,
            ],
            None => !is_wsl_kernel(kernel@),
        },
{
    let k = lowercase_of(chars_of(kernel).as_slice());
    if occurs_lit(k.as_slice(), "microsoft") {
        Some(
            Check::new(
                "Hardware",
                Health::Skipped,
                string_of(chars_of("WSL exposes virtual hardware; physical device health is not observable here.").as_slice()),
            ),
        )
    } else {
        None
    }
}

/// The hardware check from the number of kernel error records of this boot
/// (the journal query asks for at most 21).
pub fn hardware(journal: Result<usize, String>) -> (r: Check)
    ensures
        r.name@ == "Hardware"@,
        match journal {
            Ok(n) => if n > 0 {
                r.health == Health::Warning && views(r.details@) == seq![
                    count_text(n as nat, 21)
                        + " kernel error record(s) in this boot; these may be driver/software errors. Inspect mono logs boot."@,
                ]
            } else {
                r.health == Health::Good && views(r.details@) == seq![
                    "No visible kernel error records in this boot. No physical self-test or SMART test performed."@,
                ]
            },
            Err(e) => r.health == Health::Unknown && views(r.details@) == seq![e@],
        },
{
    match journal {
        Ok(n) => if n > 0 {
            let mut m = count_text_of(n, 21);
            append_lit(&mut m, " kernel error record(s) in this boot; these may be driver/software errors. Inspect mono logs boot.");
            Check::new("Hardware", Health::Warning, string_of(m.as_slice()))
        } else {
            Check::new(
                "Hardware",
                Health::Good,
                string_of(chars_of("No visible kernel error records in this boot. No physical self-test or SMART test performed.").as_slice()),
            )
        },
        Err(e) => unknown("Hardware", e),
    }
}

/// The logs check from the number of error-level records of the last 15
/// minutes (the journal query asks for at most 51).
pub fn logs(journal: Result<usize, String>) -> (r: Check)
    ensures
        r.name@ == "Logs"@,
        match journal {
            Ok(n) => if n == 0 {
                r.health == Health::Good && views(r.details@) == seq![
                    "No visible error-level records in the last 15 minutes of this boot. Journal access may be limited by permissions."@,
                ]
            } else {
                r.health == Health::Warning && views(r.details@) == seq![
                    count_text(n as nat, 51)
                        + " error-level record(s) in the last 15 minutes. Run mono logs. Records may share the same underlying cause."@,
                ]
            },
            Err(e) => r.health == Health::Unknown && views(r.details@) == seq![e@],
        },
{
    match journal {
        Ok(n) => if n == 0 {
            Check::new(
                "Logs",
                Health::Good,
                string_of(chars_of("No visible error-level records in the last 15 minutes of this boot. Journal access may be limited by permissions.").as_slice()),
            )
        } else {
            let mut m = count_text_of(n, 51);
            append_lit(&mut m, " error-level record(s) in the last 15 minutes. Run mono logs. Records may share the same underlying cause.");
            Check::new("Logs", Health::Warning, string_of(m.as_slice()))
        },
        Err(e) => unknown("Logs", e),
    }
}


/// The counter on a `key: value unit` line: the first word after `key`, as a `u64`.
pub open spec fn counter(line: Seq<char>, key: Seq<char>) -> Option<int> {
    if starts_with(line, key) {
        let ws = words(line.skip(key.len() as int));
        if ws.len() > 0 {
            match unsigned_value(ws[0]) {
                Some(v) => if v <= u64::MAX {
                    Some(v)
                } else {
                    None
                },
                None => None,
            }
        } else {
            None
        }
    } else {
        None
    }
}

/// The first readable counter named `key` among `ls`.
pub open spec fn first_counter(ls: Seq<Seq<char>>, key: Seq<char>) -> Option<int>
    decreases ls.len(),
{
    if ls.len() == 0 {
        None
    } else {
        match counter(ls[0], key) {
            Some(v) => Some(v),
            None => first_counter(ls.drop_first(), key),
        }
    }
}

fn counter_of(line: &[char], key: &str) -> (r: Option<u64>)
    ensures
        match r {
            Some(v) => counter(line@, key@) == Some(v as int),
            None => counter(line@, key@) is None,
        },
{
    if !begins_lit(line, key) {
        return None;
    }
    let k = chars_of(key);
    let rest = slice_of(line, k.len(), line.len());
    assert(rest@ =~= line@.skip(key@.len() as int));
    let ws = words_of(rest.as_slice());
    if ws.len() == 0 {
        return None;
    }
    assert(words(rest@)[0] == ws@[0]@);
    let w = text_of(ws[0].as_slice());
    match parse_u64(w.as_str()) {
        Ok(v) => Some(v),
        Err(_) => None,
    }
}

fn first_counter_of(ls: &Vec<Vec<char>>, key: &str) -> (r: Option<u64>)
    ensures
        match r {
            Some(v) => first_counter(texts(ls@), key@) == Some(v as int),
            None => first_counter(texts(ls@), key@) is None,
        },
{
    let mut k: usize = 0;
    assert(texts(ls@).skip(0) =~= texts(ls@));
    while k < ls.len()
        invariant
            k <= ls@.len(),
            first_counter(texts(ls@), key@) == first_counter(texts(ls@).skip(k as int), key@),
        decreases ls.len() - k,
    {
        assert(texts(ls@).skip(k as int)[0] == ls@[k as int]@);
        assert(texts(ls@).skip(k as int).drop_first() =~= texts(ls@).skip(k + 1));
        match counter_of(ls[k].as_slice(), key) {
            Some(v) => return Some(v),
            None => {},
        }
        k = k + 1;
    }
    None
}

/// Total and available memory from a meminfo text; the counters must exist,
/// the total must be positive and no smaller than what is available.
pub open spec fn memory_counters(data: Seq<char>) -> Result<(int, int), Seq<char>> {
    match first_counter(lines(data), "MemTotal:"@) {
        None => Err("MemTotal missing"@),
        Some(total) => match first_counter(lines(data), "MemAvailable:"@) {
            None => Err("MemAvailable missing"@),
            Some(available) => if total == 0 || available > total {
                Err("Invalid memory counters"@)
            } else {
                Ok((total, available))
            },
        },
    }
}

/// Total and available memory (in kB) from a meminfo text. Usage is judged by
/// what is available, not by what is free.
pub fn memory_values(data: &str) -> (r: Result<(u64, u64), String>)
    ensures
        match r {
            Ok((t, a)) => memory_counters(data@) == Ok::<(int, int), Seq<char>>((t as int, a as int)),
            Err(e) => memory_counters(data@) == Err::<(int, int), Seq<char>>(e@),
        },
{
    let ls = lines_of(chars_of(data).as_slice());
    let total = match first_counter_of(&ls, "MemTotal:") {
        Some(t) => t,
        None => return Err(text_of(chars_of("MemTotal missing").as_slice())),
    };
    let available = match first_counter_of(&ls, "MemAvailable:") {
        Some(a) => a,
        None => return Err(text_of(chars_of("MemAvailable missing").as_slice())),
    };
    if total == 0 || available > total {
        return Err(text_of(chars_of("Invalid memory counters").as_slice()));
    }
    Ok((total, available))
}

/// A line of `/proc/stat` that describes one logical CPU.
pub open spec fn is_cpu_line(line: Seq<char>) -> bool {
    starts_with(line, "cpu"@) && line.len() > 3 && crate::text::is_digit(line[3])
}

/// The number of per-CPU lines.
pub open spec fn cpu_lines(ls: Seq<Seq<char>>) -> nat
    decreases ls.len(),
{
    if ls.len() == 0 {
        0
    } else {
        cpu_lines(ls.drop_last()) + if is_cpu_line(ls.last()) {
            1nat
        } else {
            0nat
        }
    }
}

/// The number of logical CPUs listed in a `/proc/stat` text; none is an error.
pub fn cpu_cores(stat: &str) -> (r: Result<usize, String>)
    ensures
        match r {
            Ok(n) => n > 0 && n == cpu_lines(lines(stat@)),
            Err(e) => cpu_lines(lines(stat@)) == 0 && e@ == "CPU count unavailable"@,
        },
{
    let ls = lines_of(chars_of(stat).as_slice());
    let ghost lv = texts(ls@);
    let mut n: usize = 0;
    let mut i: usize = 0;
    assert(lv.take(0) =~= Seq::<Seq<char>>::empty());
    while i < ls.len()
        invariant
            lv == texts(ls@),
            i <= ls@.len(),
            n <= i,
            n == cpu_lines(lv.take(i as int)),
        decreases ls.len() - i,
    {
        assert(lv.take(i + 1).drop_last() =~= lv.take(i as int));
        assert(lv.take(i + 1).last() == ls@[i as int]@);
        let l = ls[i].as_slice();
        if begins_lit(l, "cpu") && l.len() > 3 && crate::text::digit(l[3]) {
            n = n + 1;
        }
        i = i + 1;
    }
    assert(lv.take(ls@.len() as int) =~= lv);
    if n == 0 {
        return Err(text_of(chars_of("CPU count unavailable").as_slice()));
    }
    Ok(n)
}

/// The root entry of a mountinfo listing, if any: whether it is mounted read-only.
pub open spec fn root_read_only(ls: Seq<Seq<char>>) -> Option<bool>
    decreases ls.len(),
{
    if ls.len() == 0 {
        None
    } else {
        let f = words(ls[0]);
        if f.len() > 5 && f[4] == "/"@ {
            Some(split(f[5], ',').contains("ro"@))
        } else {
            root_read_only(ls.drop_first())
        }
    }
}

fn has_ro(opts: &Vec<Vec<char>>) -> (r: bool)
    ensures
        r == texts(opts@).contains("ro"@),
{
    let mut k: usize = 0;
    while k < opts.len()
        invariant
            k <= opts@.len(),
            forall|j: int| 0 <= j < k ==> texts(opts@)[j] != "ro"@,
        decreases opts.len() - k,
    {
        if equals(opts[k].as_slice(), "ro") {
            assert(texts(opts@)[k as int] == "ro"@);
            return true;
        }
        k = k + 1;
    }
    false
}

/// The filesystems check from the mount table of this process.
pub fn filesystems(mountinfo: Result<String, String>) -> (r: Check)
    ensures
        r.name@ == "Filesystems"@,
        match mountinfo {
            Ok(text) => match root_read_only(lines(text@)) {
                Some(true) => r.health == Health::Warning && views(r.details@) == seq![
                    "Root filesystem is read-only (may be intentional for a live system)."@,
                ],
                Some(false) => r.health == Health::Good && views(r.details@) == seq![
                    "Root filesystem is mounted read-write. Integrity/fsck was not checked."@,
                ],
                None => r.health == Health::Unknown && views(r.details@) == seq![
                    "Root mount state unavailable"@,
                ],
            },
            Err(e) => r.health == Health::Unknown && views(r.details@) == seq![e@],
        },
{
    let text = match mountinfo {
        Ok(t) => t,
        Err(e) => return unknown("Filesystems", e),
    };
    let ls = lines_of(chars_of(text.as_str()).as_slice());
    let mut k: usize = 0;
    assert(texts(ls@).skip(0) =~= texts(ls@));
    while k < ls.len()
        invariant
            k <= ls@.len(),
            root_read_only(lines(text@)) == root_read_only(texts(ls@).skip(k as int)),
            texts(ls@) == lines(text@),
            mountinfo == Ok::<String, String>(text),
        decreases ls.len() - k,
    {
        assert(texts(ls@).skip(k as int)[0] == ls@[k as int]@);
        assert(texts(ls@).skip(k as int).drop_first() =~= texts(ls@).skip(k + 1));
        let f = words_of(ls[k].as_slice());
        if f.len() > 5 && equals(f[4].as_slice(), "/") {
            assert(texts(f@)[4] == f@[4]@ && texts(f@)[5] == f@[5]@);
            let opts = split_of(f[5].as_slice(), ',');
            let ghost line = texts(ls@).skip(k as int)[0];
            assert(words(line) == texts(f@));
            assert(words(line)[4] == "/"@);
            assert(root_read_only(texts(ls@).skip(k as int)) == Some(
                texts(opts@).contains("ro"@),
            ));
            if has_ro(&opts) {
                return Check::new(
                    "Filesystems",
                    Health::Warning,
                    text_of(chars_of("Root filesystem is read-only (may be intentional for a live system).").as_slice()),
                );
            } else {
                return Check::new(
                    "Filesystems",
                    Health::Good,
                    text_of(chars_of("Root filesystem is mounted read-write. Integrity/fsck was not checked.").as_slice()),
                );
            }
        }
        k = k + 1;
    }
    unknown("Filesystems", text_of(chars_of("Root mount state unavailable").as_slice()))
}


/// The first line that starts with `key`, without the key.
pub open spec fn first_prefixed(ls: Seq<Seq<char>>, key: Seq<char>) -> Option<Seq<char>>
    decreases ls.len(),
{
    if ls.len() == 0 {
        None
    } else if starts_with(ls[0], key) {
        Some(ls[0].skip(key.len() as int))
    } else {
        first_prefixed(ls.drop_first(), key)
    }
}

/// The memory use and name of a process as read from its status file: the
/// resident size (0 when unreadable) and the trimmed name (`unknown` when absent).
pub open spec fn process_usage(status: Seq<char>) -> (int, Seq<char>) {
    let rss = match first_counter(lines(status), "VmRSS:"@) {
        Some(v) => v,
        None => 0,
    };
    let name = match first_prefixed(lines(status), "Name:"@) {
        Some(n) => trim(n),
        None => "unknown"@,
    };
    (rss, name)
}

/// The resident size (kB) and name of a process from its status file.
pub fn process_status(status: &str) -> (r: (u64, String))
    ensures
        r.0 as int == process_usage(status@).0,
        r.1@ == process_usage(status@).1,
{
    let ls = lines_of(chars_of(status).as_slice());
    let rss = match first_counter_of(&ls, "VmRSS:") {
        Some(v) => v,
        None => 0,
    };
    let key = chars_of("Name:");
    let mut k: usize = 0;
    assert(texts(ls@).skip(0) =~= texts(ls@));
    while k < ls.len()
        invariant
            key@ == "Name:"@,
            rss as int == match first_counter(lines(status@), "VmRSS:"@) {
                Some(v) => v,
                None => 0,
            },
            k <= ls@.len(),
            texts(ls@) == lines(status@),
            first_prefixed(lines(status@), "Name:"@) == first_prefixed(
                texts(ls@).skip(k as int),
                "Name:"@,
            ),
        decreases ls.len() - k,
    {
        assert(texts(ls@).skip(k as int)[0] == ls@[k as int]@);
        assert(texts(ls@).skip(k as int).drop_first() =~= texts(ls@).skip(k + 1));
        if crate::text::begins(ls[k].as_slice(), key.as_slice()) {
            let rest = slice_of(ls[k].as_slice(), key.len(), ls[k].len());
            assert(rest@ =~= ls@[k as int]@.skip(key@.len() as int));
            let name = trim_of(rest.as_slice());
            return (rss, text_of(name.as_slice()));
        }
        k = k + 1;
    }
    (rss, text_of(chars_of("unknown").as_slice()))
}

/// A visible process and its resident memory.
pub struct ProcessUsage {
    pub rss: u64,
    pub name: String,
    pub pid: String,
}

/// The position of the first process with the largest resident size.
pub open spec fn largest_at(rss: Seq<u64>) -> Option<int>
    decreases rss.len(),
{
    if rss.len() == 0 {
        None
    } else {
        match largest_at(rss.drop_last()) {
            None => Some(rss.len() - 1),
            Some(k) => if rss.last() > rss[k] {
                Some(rss.len() - 1)
            } else {
                Some(k)
            },
        }
    }
}

/// The resident sizes of the listed processes.
pub open spec fn sizes(ps: Seq<ProcessUsage>) -> Seq<u64> {
    ps.map_values(|p: ProcessUsage| p.rss)
}

/// The position of the process with the largest resident size; among equals
/// the first one listed.
pub fn largest_process(ps: &Vec<ProcessUsage>) -> (r: Option<usize>)
    ensures
        match r {
            Some(k) => largest_at(sizes(ps@)) == Some(k as int),
            None => largest_at(sizes(ps@)) is None,
        },
        r is None <==> ps@.len() == 0,
        r matches Some(k) ==> k < ps@.len() && (forall|j: int| 0 <= j < ps@.len() ==> ps@[j].rss
            <= ps@[k as int].rss) && (forall|j: int| 0 <= j < k ==> ps@[j].rss < ps@[k as int].rss),
{
    let ghost sv = sizes(ps@);
    let mut best: Option<usize> = None;
    let mut i: usize = 0;
    assert(sv.take(0) =~= Seq::<u64>::empty());
    while i < ps.len()
        invariant
            sv == sizes(ps@),
            i <= ps@.len(),
            match best {
                Some(k) => largest_at(sv.take(i as int)) == Some(k as int),
                None => largest_at(sv.take(i as int)) is None,
            },
            best is None <==> i == 0,
            best matches Some(k) ==> k < i && (forall|j: int| 0 <= j < i ==> ps@[j].rss
                <= ps@[k as int].rss) && (forall|j: int| 0 <= j < k ==> ps@[j].rss < ps@[k as int].rss),
        decreases ps.len() - i,
    {
        assert(sv.take(i + 1).drop_last() =~= sv.take(i as int));
        assert(sv.take(i + 1).last() == ps@[i as int].rss);
        match best {
            None => {
                best = Some(i);
            },
            Some(k) => {
                assert(sv.take(i + 1)[k as int] == ps@[k as int].rss);
                if ps[i].rss > ps[k].rss {
                    best = Some(i);
                }
            },
        }
        i = i + 1;
    }
    assert(sv.take(ps@.len() as int) =~= sv);
    best
}

/// One mounted filesystem from a `df -P` listing: its capacity text (the
/// percentage without `%`) and its mount point.
pub struct StorageRow {
    pub capacity: String,
    pub mount: String,
}

/// The capacity and mount point of a `df -P` data line with at least six columns.
pub open spec fn storage_row(line: Seq<char>) -> Option<(Seq<char>, Seq<char>)> {
    let cols = words(line);
    if cols.len() < 6 {
        None
    } else {
        Some((crate::text::strip_trailing(cols[4], '%'), crate::text::join(cols.skip(5), " "@)))
    }
}

/// The rows of the data lines among `ls`, in order.
pub open spec fn storage_rows_of(ls: Seq<Seq<char>>) -> Seq<(Seq<char>, Seq<char>)>
    decreases ls.len(),
{
    if ls.len() == 0 {
        Seq::empty()
    } else {
        let r = storage_rows_of(ls.drop_last());
        match storage_row(ls.last()) {
            Some(x) => r.push(x),
            None => r,
        }
    }
}

/// The lines after the first one.
pub open spec fn after_header(ls: Seq<Seq<char>>) -> Seq<Seq<char>> {
    if ls.len() == 0 {
        ls
    } else {
        ls.drop_first()
    }
}

/// The views of storage rows.
pub open spec fn row_views(rows: Seq<StorageRow>) -> Seq<(Seq<char>, Seq<char>)> {
    rows.map_values(|r: StorageRow| (r.capacity@, r.mount@))
}

/// The filesystem rows of a `df -P` listing, after its header line.
pub fn storage_rows(listing: &str) -> (r: Vec<StorageRow>)
    ensures
        row_views(r@) == storage_rows_of(after_header(lines(listing@))),
{
    let ls = lines_of(chars_of(listing).as_slice());
    let ghost lv = texts(ls@);
    let mut rows: Vec<StorageRow> = Vec::new();
    let mut i: usize = 1;
    if ls.len() == 0 {
        assert(row_views(rows@) =~= Seq::<(Seq<char>, Seq<char>)>::empty());
        return rows;
    }
    assert(lv.subrange(1, 1) =~= Seq::<Seq<char>>::empty());
    assert(row_views(rows@) =~= Seq::<(Seq<char>, Seq<char>)>::empty());
    while i < ls.len()
        invariant
            lv == texts(ls@),
            lv == lines(listing@),
            1 <= i <= ls@.len(),
            row_views(rows@) == storage_rows_of(lv.subrange(1, i as int)),
        decreases ls.len() - i,
    {
        assert(lv.subrange(1, i + 1).drop_last() =~= lv.subrange(1, i as int));
        assert(lv.subrange(1, i + 1).last() == ls@[i as int]@);
        let cols = words_of(ls[i].as_slice());
        if cols.len() >= 6 {
            let cap = crate::text::strip_trailing_of(cols[4].as_slice(), '%');
            let rest = crate::text::slice_vecs(&cols, 5, cols.len());
            let mount = crate::text::join_of(rest.as_slice(), " ");
            assert(texts(rest@) =~= texts(cols@).skip(5));
            let row = StorageRow { capacity: text_of(cap.as_slice()), mount: text_of(mount.as_slice()) };
            let ghost before = row_views(rows@);
            rows.push(row);
            assert(row_views(rows@) =~= before.push((cap@, mount@)));
        }
        i = i + 1;
    }
    assert(lv.subrange(1, ls@.len() as int) =~= after_header(lv));
    rows
}

/// A measured filesystem: its health and, when that is a problem, the line
/// that reports it.
pub struct Capacity {
    pub health: Health,
    pub problem: String,
}

/// The worst of the measured healths, as the storage check folds them.
pub open spec fn worst(hs: Seq<Health>) -> Health
    decreases hs.len(),
{
    if hs.len() == 0 {
        Health::Good
    } else {
        let w = worst(hs.drop_last());
        if hs.last() is Error {
            Health::Error
        } else if hs.last() is Warning && !(w is Error) {
            Health::Warning
        } else {
            w
        }
    }
}

/// The healths of the measured filesystems.
pub open spec fn healths(ms: Seq<Capacity>) -> Seq<Health> {
    ms.map_values(|m: Capacity| m.health)
}

/// The problem lines of the measured filesystems that have a problem, in order.
pub open spec fn problems(ms: Seq<Capacity>) -> Seq<Seq<char>>
    decreases ms.len(),
{
    if ms.len() == 0 {
        Seq::empty()
    } else {
        let p = problems(ms.drop_last());
        if crate::diagnostics::is_problem(ms.last().health) {
            p.push(ms.last().problem@)
        } else {
            p
        }
    }
}

/// The storage check over the measured filesystems: the worst health, and at
/// most five problem lines; no measurement at all is an error.
pub fn storage_summary(measured: Vec<Capacity>) -> (r: Result<Check, String>)
    ensures
        match r {
            Ok(c) => {
                &&& measured@.len() > 0
                &&& c.name@ == "Storage"@
                &&& c.health == worst(healths(measured@))
                &&& views(c.details@) == seq![
                    "Checked capacity of "@ + decimal(measured@.len())
                        + " mounted filesystems (excluding temporary/read-only image types)."@,
                ] + problems(measured@).take(
                    if problems(measured@).len() < 5 {
                        problems(measured@).len() as int
                    } else {
                        5
                    },
                )
            },
            Err(e) => measured@.len() == 0 && e@ == "No filesystem capacity data"@,
        },
{
    let count = measured.len();
    if count == 0 {
        return Err(text_of(chars_of("No filesystem capacity data").as_slice()));
    }
    let ghost mv = measured@;
    let mut health = Health::Good;
    let mut found: Vec<String> = Vec::new();
    let mut i: usize = 0;
    assert(mv.take(0) =~= Seq::<Capacity>::empty());
    assert(healths(mv.take(0)) =~= Seq::<Health>::empty());
    assert(views(found@) =~= Seq::<Seq<char>>::empty());
    while i < count
        invariant
            mv == measured@,
            count == mv.len(),
            i <= count,
            health == worst(healths(mv.take(i as int))),
            views(found@) == problems(mv.take(i as int)),
        decreases count - i,
    {
        assert(mv.take(i + 1).drop_last() =~= mv.take(i as int));
        assert(healths(mv.take(i + 1)).drop_last() =~= healths(mv.take(i as int)));
        assert(healths(mv.take(i + 1)).last() == mv[i as int].health);
        let h = measured[i].health;
        if h == Health::Error {
            health = Health::Error;
        } else if h == Health::Warning && health != Health::Error {
            health = Health::Warning;
        }
        if h.problem() {
            let line = text_of(chars_of(measured[i].problem.as_str()).as_slice());
            proof {
                lemma_views_push(found@, line);
            }
            found.push(line);
        }
        i = i + 1;
    }
    assert(mv.take(count as int) =~= mv);
    let mut first: Vec<char> = Vec::new();
    append_lit(&mut first, "Checked capacity of ");
    append(&mut first, decimal_of(count as u64).as_slice());
    append_lit(&mut first, " mounted filesystems (excluding temporary/read-only image types).");
    let mut details: Vec<String> = Vec::new();
    details.push(text_of(first.as_slice()));
    let ghost pv = views(found@);
    let limit = if found.len() < 5 {
        found.len()
    } else {
        5
    };
    let mut j: usize = 0;
    assert(views(details@) =~= seq![first@] + pv.take(0));
    while j < limit
        invariant
            pv == views(found@),
            limit <= found@.len(),
            j <= limit,
            views(details@) == seq![first@] + pv.take(j as int),
        decreases limit - j,
    {
        let line = text_of(chars_of(found[j].as_str()).as_slice());
        proof {
            lemma_views_push(details@, line);
        }
        details.push(line);
        assert(pv.take(j + 1) =~= pv.take(j as int).push(pv[j as int]));
        j = j + 1;
    }
    Ok(Check { name: "Storage", health, details })
}


/// What the power supply class shows of one supply: its type, its capacity
/// text (`None` when unreadable) and its status text.
pub struct Supply {
    pub kind: String,
    pub capacity: Option<String>,
    pub status: String,
}

/// A battery charge percentage, when readable and at most 100.
pub open spec fn charge(capacity: Option<Seq<char>>) -> Option<int> {
    match capacity {
        Some(t) => match unsigned_value(trim(t)) {
            Some(v) => if v <= 100 {
                Some(v)
            } else {
                None
            },
            None => None,
        },
        None => None,
    }
}

/// The view of a supply.
pub open spec fn supply_view(s: Supply) -> (Seq<char>, Option<Seq<char>>, Seq<char>) {
    (
        s.kind@,
        match s.capacity {
            Some(c) => Some(c@),
            None => None,
        },
        s.status@,
    )
}

/// Whether a supply is a battery.
pub open spec fn is_battery(s: (Seq<char>, Option<Seq<char>>, Seq<char>)) -> bool {
    trim(s.0) == "Battery"@
}

/// The readable batteries: charge and trimmed status, in order.
pub open spec fn batteries(ss: Seq<(Seq<char>, Option<Seq<char>>, Seq<char>)>) -> Seq<(int, Seq<char>)>
    decreases ss.len(),
{
    if ss.len() == 0 {
        Seq::empty()
    } else {
        let b = batteries(ss.drop_last());
        let s = ss.last();
        if is_battery(s) && charge(s.1) is Some {
            b.push((charge(s.1)->0, trim(s.2)))
        } else {
            b
        }
    }
}

/// Whether some battery's charge could not be read.
pub open spec fn unreadable(ss: Seq<(Seq<char>, Option<Seq<char>>, Seq<char>)>) -> bool {
    exists|i: int| 0 <= i < ss.len() && is_battery(#[trigger] ss[i]) && charge(ss[i].1) is None
}

/// The health after taking one battery into account.
pub open spec fn battery_step(h: Health, b: (int, Seq<char>)) -> Health {
    let discharging = b.1 == "Discharging"@;
    let h1 = if discharging && b.0 <= 10 {
        Health::Error
    } else if discharging && b.0 <= 20 && !(h is Error) {
        Health::Warning
    } else {
        h
    };
    if b.1.len() == 0 && h1 is Good {
        Health::Unknown
    } else {
        h1
    }
}

/// The health over all batteries, starting from `h`.
pub open spec fn battery_health(h: Health, bs: Seq<(int, Seq<char>)>) -> Health
    decreases bs.len(),
{
    if bs.len() == 0 {
        h
    } else {
        battery_step(battery_health(h, bs.drop_last()), bs.last())
    }
}

/// The detail line for one battery.
pub open spec fn battery_line(b: (int, Seq<char>)) -> Seq<char> {
    "Battery: "@ + decimal(b.0 as nat) + "%, state: "@ + (if b.1.len() == 0 {
        "unknown"@
    } else {
        b.1
    })
}

/// The power check from what the power supply class shows.
pub fn power(supplies: Vec<Supply>) -> (r: Check)
    ensures
        ({
            let ss = supplies@.map_values(|s: Supply| supply_view(s));
            let bs = batteries(ss);
            &&& r.name@ == "Power"@
            &&& if bs.len() == 0 {
                &&& r.health == if unreadable(ss) {
                    Health::Unknown
                } else {
                    Health::Skipped
                }
                &&& views(r.details@) == seq![
                    "No readable battery data; AC supply health is not measurable here."@,
                ]
            } else {
                &&& r.health == battery_health(
                    if unreadable(ss) {
                        Health::Unknown
                    } else {
                        Health::Good
                    },
                    bs,
                )
                &&& views(r.details@) == bs.map_values(|b: (int, Seq<char>)| battery_line(b))
            }
        }),
{
    let ghost ss = supplies@.map_values(|s: Supply| supply_view(s));
    let mut charges: Vec<u8> = Vec::new();
    let mut states: Vec<Vec<char>> = Vec::new();
    let mut missing = false;
    let mut i: usize = 0;
    assert(ss.take(0) =~= Seq::<(Seq<char>, Option<Seq<char>>, Seq<char>)>::empty());
    while i < supplies.len()
        invariant
            ss == supplies@.map_values(|s: Supply| supply_view(s)),
            i <= supplies@.len(),
            charges@.len() == states@.len(),
            batteries(ss.take(i as int)) == charges@.map_values(|c: u8| c as int).zip_with(
                texts(states@),
            ),
            missing == unreadable(ss.take(i as int)),
        decreases supplies.len() - i,
    {
        let ghost t = ss.take(i + 1);
        assert(t.drop_last() =~= ss.take(i as int));
        assert(t.last() == supply_view(supplies@[i as int]));
        let kind = trim_of(chars_of(supplies[i].kind.as_str()).as_slice());
        if equals(kind.as_slice(), "Battery") {
            let level: Option<u8> = match &supplies[i].capacity {
                Some(c) => {
                    let ct = trim_of(chars_of(c.as_str()).as_slice());
                    match parse_u8(text_of(ct.as_slice()).as_str()) {
                        Ok(v) => if v <= 100 {
                            Some(v)
                        } else {
                            None
                        },
                        Err(_) => None,
                    }
                },
                None => None,
            };
            match level {
                Some(v) => {
                    let st = trim_of(chars_of(supplies[i].status.as_str()).as_slice());
                    let ghost before_c = charges@;
                    let ghost before_s = states@;
                    charges.push(v);
                    proof {
                        crate::text::lemma_texts_push(states@, st);
                    }
                    states.push(st);
                    assert(charges@.map_values(|c: u8| c as int).zip_with(texts(states@)) =~= before_c.map_values(
                        |c: u8| c as int,
                    ).zip_with(texts(before_s)).push((v as int, trim(supply_view(supplies@[i as int]).2))));
                    assert(unreadable(t) == unreadable(ss.take(i as int))) by {
                        if unreadable(t) {
                            let w = choose|w: int| 0 <= w < t.len() && is_battery(#[trigger] t[w]) && charge(t[w].1) is None;
                            if w < i {
                                assert(ss.take(i as int)[w] == t[w]);
                            }
                        }
                        if unreadable(ss.take(i as int)) {
                            let w = choose|w: int| 0 <= w < i && is_battery(#[trigger] ss.take(i as int)[w]) && charge(ss.take(i as int)[w].1) is None;
                            assert(t[w] == ss.take(i as int)[w]);
                        }
                    }
                },
                None => {
                    assert(unreadable(t)) by {
                        assert(is_battery(t[i as int]) && charge(t[i as int].1) is None);
                    }
                    missing = true;
                },
            }
        } else {
            assert(unreadable(t) == unreadable(ss.take(i as int))) by {
                if unreadable(t) {
                    let w = choose|w: int| 0 <= w < t.len() && is_battery(#[trigger] t[w]) && charge(t[w].1) is None;
                    if w < i {
                        assert(ss.take(i as int)[w] == t[w]);
                    }
                }
                if unreadable(ss.take(i as int)) {
                    let w = choose|w: int| 0 <= w < i && is_battery(#[trigger] ss.take(i as int)[w]) && charge(ss.take(i as int)[w].1) is None;
                    assert(t[w] == ss.take(i as int)[w]);
                }
            }
        }
        i = i + 1;
    }
    assert(ss.take(supplies@.len() as int) =~= ss);
    let ghost bs = batteries(ss);
    if charges.len() == 0 {
        let h = if missing {
            Health::Unknown
        } else {
            Health::Skipped
        };
        return Check::new(
            "Power",
            h,
            text_of(chars_of("No readable battery data; AC supply health is not measurable here.").as_slice()),
        );
    }
    let mut h = if missing {
        Health::Unknown
    } else {
        Health::Good
    };
    let ghost h0 = h;
    let mut details: Vec<String> = Vec::new();
    let mut k: usize = 0;
    assert(bs.take(0) =~= Seq::<(int, Seq<char>)>::empty());
    assert(views(details@) =~= Seq::<Seq<char>>::empty());
    while k < charges.len()
        invariant
            bs == charges@.map_values(|c: u8| c as int).zip_with(texts(states@)),
            charges@.len() == states@.len(),
            k <= charges@.len(),
            h == battery_health(h0, bs.take(k as int)),
            views(details@) == bs.take(k as int).map_values(|b: (int, Seq<char>)| battery_line(b)),
        decreases charges.len() - k,
    {
        assert(bs.take(k + 1).drop_last() =~= bs.take(k as int));
        assert(bs.take(k + 1).last() == (charges@[k as int] as int, states@[k as int]@));
        let cap = charges[k];
        let st = states[k].as_slice();
        let discharging = equals(st, "Discharging");
        if discharging && cap <= 10 {
            h = Health::Error;
        } else if discharging && cap <= 20 && h != Health::Error {
            h = Health::Warning;
        }
        if st.len() == 0 && h == Health::Good {
            h = Health::Unknown;
        }
        let mut m: Vec<char> = Vec::new();
        append_lit(&mut m, "Battery: ");
        append(&mut m, decimal_of(cap as u64).as_slice());
        append_lit(&mut m, "%, state: ");
        if st.len() == 0 {
            append_lit(&mut m, "unknown");
        } else {
            append(&mut m, st);
        }
        let line = text_of(m.as_slice());
        proof {
            lemma_views_push(details@, line);
        }
        details.push(line);
        assert(bs.take(k + 1).map_values(|b: (int, Seq<char>)| battery_line(b)) =~= bs.take(
            k as int,
        ).map_values(|b: (int, Seq<char>)| battery_line(b)).push(battery_line(bs[k as int])));
        k = k + 1;
    }
    assert(bs.take(charges@.len() as int) =~= bs);
    Check { name: "Power", health: h, details }
}


/// A sensor file that holds a temperature: `temp`, or `temp…_input`.
pub open spec fn is_temperature_file(name: Seq<char>) -> bool {
    name == "temp"@ || (starts_with(name, "temp"@) && ends_with(name, "_input"@))
}

/// Whether a sensor file holds a temperature.
pub fn temperature_file(name: &str) -> (r: bool)
    ensures
        r == is_temperature_file(name@),
{
    let n = chars_of(name);
    equals(n.as_slice(), "temp") || (begins_lit(n.as_slice(), "temp") && ends_lit(n.as_slice(), "_input"))
}

} // verus!
