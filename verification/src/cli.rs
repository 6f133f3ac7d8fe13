//! The command line: the `--dry-run` flag, which request a command line
//! makes, and what a network check reports.

use vstd::prelude::*;
use crate::command::debug_list;
use crate::command::debug_strings;
use crate::numbers::{decimal, decimal_of, parse_u16, unsigned_value};
use crate::text::{append, append_lit, chars_of, equals, join, lemma_views_push, string_of, views};

verus! {

/// Reads the command line from the left: every `--dry-run` before the first
/// `--` is taken out and sets the flag; the rest is kept in order. The result
/// is what is kept, whether the flag was set, and whether `--` was seen.
pub open spec fn dry_run_scan(a: Seq<Seq<char>>) -> (Seq<Seq<char>>, bool, bool)
    decreases a.len(),
{
    if a.len() == 0 {
        (Seq::empty(), false, false)
    } else {
        let (kept, dry, after) = dry_run_scan(a.drop_last());
        let x = a.last();
        let after2 = after || x == "--"@;
        if !after2 && x == "--dry-run"@ {
            (kept, true, after2)
        } else {
            (kept.push(x), dry, after2)
        }
    }
}

/// The command line without its `--dry-run` flags, and whether one was given.
pub fn split_dry_run(args: &Vec<String>) -> (r: (Vec<String>, bool))
    ensures
        views(r.0@) == dry_run_scan(views(args@)).0,
        r.1 == dry_run_scan(views(args@)).1,
{
    let ghost a = views(args@);
    let mut kept: Vec<String> = Vec::new();
    let mut dry = false;
    let mut after = false;
    let mut i: usize = 0;
    assert(a.take(0) =~= Seq::<Seq<char>>::empty());
    assert(views(kept@) =~= Seq::<Seq<char>>::empty());
    while i < args.len()
        invariant
            a == views(args@),
            i <= args@.len(),
            dry_run_scan(a.take(i as int)) == (views(kept@), dry, after),
        decreases args.len() - i,
    {
        let x = chars_of(args[i].as_str());
        assert(a.take(i + 1).drop_last() =~= a.take(i as int));
        assert(a.take(i + 1).last() == args@[i as int]@);
        if equals(x.as_slice(), "--") {
            after = true;
        }
        if !after && equals(x.as_slice(), "--dry-run") {
            dry = true;
        } else {
            let s = string_of(x.as_slice());
            proof {
                lemma_views_push(kept@, s);
            }
            kept.push(s);
        }
        i = i + 1;
    }
    assert(a.take(args@.len() as int) =~= a);
    (kept, dry)
}

/// What a command line asks for.
#[derive(Debug)]
pub enum Request {
    /// The command list, or the help of one command.
    Help(Option<String>),
    /// The manual, or the manual page of one command.
    Manual(Option<String>),
    /// How the Arch backend carries out one command.
    BackendManual(String),
    Version,
    Status,
    /// Addresses and routes.
    Network,
    /// A DNS and TCP check of a host and port.
    NetworkCheck(String, u16),
    /// A command that is planned and run.
    Plan,
}

/// The model of a request.
pub enum RequestView {
    Help(Option<Seq<char>>),
    Manual(Option<Seq<char>>),
    BackendManual(Seq<char>),
    Version,
    Status,
    Network,
    NetworkCheck(Seq<char>, u16),
    Plan,
}

impl View for Request {
    type V = RequestView;

    open spec fn view(&self) -> RequestView {
        match self {
            Request::Help(Some(c)) => RequestView::Help(Some(c@)),
            Request::Help(None) => RequestView::Help(None),
            Request::Manual(Some(c)) => RequestView::Manual(Some(c@)),
            Request::Manual(None) => RequestView::Manual(None),
            Request::BackendManual(c) => RequestView::BackendManual(c@),
            Request::Version => RequestView::Version,
            Request::Status => RequestView::Status,
            Request::Network => RequestView::Network,
            Request::NetworkCheck(h, p) => RequestView::NetworkCheck(h@, *p),
            Request::Plan => RequestView::Plan,
        }
    }
}

/// The message for a port that is no number in `1..=65535`.
pub open spec fn port_message() -> Seq<char> {
    "Port must be 1..65535"@
}

/// What a command line asks for: help and manual pages, the version, the
/// status, the network overview or a network check (port 443 unless given),
/// and anything else is a command to plan.
pub open spec fn request_of(a: Seq<Seq<char>>) -> Result<RequestView, Seq<char>> {
    let n = a.len();
    if n == 0 || (n == 1 && (a[0] == "help"@ || a[0] == "--help"@ || a[0] == "-h"@)) {
        Ok(RequestView::Help(None))
    } else if n == 2 && a[0] == "help"@ {
        Ok(RequestView::Help(Some(a[1])))
    } else if n == 1 && a[0] == "manual"@ {
        Ok(RequestView::Manual(None))
    } else if n == 2 && a[0] == "manual"@ {
        Ok(RequestView::Manual(Some(a[1])))
    } else if n == 3 && a[0] == "manual"@ && a[1] == "backend"@ {
        Ok(RequestView::BackendManual(a[2]))
    } else if n == 1 && a[0] == "version"@ {
        Ok(RequestView::Version)
    } else if n == 1 && a[0] == "status"@ {
        Ok(RequestView::Status)
    } else if (n == 1 && a[0] == "network"@) || (n == 2 && a[0] == "network"@ && a[1] == "status"@) {
        Ok(RequestView::Network)
    } else if n == 3 && a[0] == "network"@ && a[1] == "check"@ {
        Ok(RequestView::NetworkCheck(a[2], 443))
    } else if n == 4 && a[0] == "network"@ && a[1] == "check"@ {
        match unsigned_value(a[3]) {
            Some(p) => if p <= u16::MAX {
                Ok(RequestView::NetworkCheck(a[2], p as u16))
            } else {
                Err(port_message())
            },
            None => Err(port_message()),
        }
    } else {
        Ok(RequestView::Plan)
    }
}

fn is(a: &str, lit: &str) -> (r: bool)
    ensures
        r == (a@ == lit@),
{
    equals(chars_of(a).as_slice(), lit)
}

fn text(s: &str) -> (r: String)
    ensures
        r@ == s@,
{
    string_of(chars_of(s).as_slice())
}

/// What a command line asks for.
pub fn request(a: &[&str]) -> (r: Result<Request, String>)
    ensures
        match r {
            Ok(q) => request_of(crate::command::strs(a@)) == Ok::<RequestView, Seq<char>>(q@),
            Err(e) => request_of(crate::command::strs(a@)) == Err::<RequestView, Seq<char>>(e@),
        },
{
    let n = a.len();
    if n == 0 || (n == 1 && (is(a[0], "help") || is(a[0], "--help") || is(a[0], "-h"))) {
        Ok(Request::Help(None))
    } else if n == 2 && is(a[0], "help") {
        Ok(Request::Help(Some(text(a[1]))))
    } else if n == 1 && is(a[0], "manual") {
        Ok(Request::Manual(None))
    } else if n == 2 && is(a[0], "manual") {
        Ok(Request::Manual(Some(text(a[1]))))
    } else if n == 3 && is(a[0], "manual") && is(a[1], "backend") {
        Ok(Request::BackendManual(text(a[2])))
    } else if n == 1 && is(a[0], "version") {
        Ok(Request::Version)
    } else if n == 1 && is(a[0], "status") {
        Ok(Request::Status)
    } else if (n == 1 && is(a[0], "network")) || (n == 2 && is(a[0], "network") && is(a[1], "status")) {
        Ok(Request::Network)
    } else if n == 3 && is(a[0], "network") && is(a[1], "check") {
        Ok(Request::NetworkCheck(text(a[2]), 443))
    } else if n == 4 && is(a[0], "network") && is(a[1], "check") {
        match parse_u16(a[3]) {
            Ok(p) => Ok(Request::NetworkCheck(text(a[2]), p)),
            Err(_) => Err(text("Port must be 1..65535")),
        }
    } else {
        Ok(Request::Plan)
    }
}

/// What a dry run of a command line does.
#[derive(Debug)]
pub enum Preview {
    /// The command only reads; it is named and not run.
    ReadOnly,
    /// A network check of a host and a port given as text, described only.
    Network(String, String),
    /// A command that is planned and shown.
    Plan,
}

/// The model of a preview.
pub enum PreviewView {
    ReadOnly,
    Network(Seq<char>, Seq<char>),
    Plan,
}

impl View for Preview {
    type V = PreviewView;

    open spec fn view(&self) -> PreviewView {
        match self {
            Preview::ReadOnly => PreviewView::ReadOnly,
            Preview::Network(h, p) => PreviewView::Network(h@, p@),
            Preview::Plan => PreviewView::Plan,
        }
    }
}

/// What a dry run of a command line does: help, manual, version, status and
/// network overviews only read; a network check is described; anything else
/// is planned and shown.
pub open spec fn preview_of(a: Seq<Seq<char>>) -> PreviewView {
    let n = a.len();
    let w = if n > 0 {
        a[0]
    } else {
        Seq::empty()
    };
    if n == 0 || (n == 1 && (w == "help"@ || w == "manual"@ || w == "version"@ || w == "status"@))
        || (n == 2 && (w == "help"@ || w == "manual"@)) || (n == 3 && w == "manual"@ && a[1]
        == "backend"@) || (n == 1 && w == "network"@) || (n == 2 && w == "network"@ && a[1]
        == "status"@) {
        PreviewView::ReadOnly
    } else if n == 3 && w == "network"@ && a[1] == "check"@ {
        PreviewView::Network(a[2], "443"@)
    } else if n == 4 && w == "network"@ && a[1] == "check"@ {
        PreviewView::Network(a[2], a[3])
    } else {
        PreviewView::Plan
    }
}

/// What a dry run of a command line does.
pub fn preview(a: &[&str]) -> (r: Preview)
    ensures
        r@ == preview_of(crate::command::strs(a@)),
{
    let n = a.len();
    let w = if n > 0 {
        a[0]
    } else {
        ""
    };
    proof {
        reveal_strlit("");
    }
    if n == 0 || (n == 1 && (is(w, "help") || is(w, "manual") || is(w, "version") || is(w, "status")))
        || (n == 2 && (is(w, "help") || is(w, "manual"))) || (n == 3 && is(w, "manual") && is(
        a[1],
        "backend",
    )) || (n == 1 && is(w, "network")) || (n == 2 && is(w, "network") && is(a[1], "status")) {
        Preview::ReadOnly
    } else if n == 3 && is(w, "network") && is(a[1], "check") {
        Preview::Network(text(a[2]), text("443"))
    } else if n == 4 && is(w, "network") && is(a[1], "check") {
        Preview::Network(text(a[2]), text(a[3]))
    } else {
        Preview::Plan
    }
}

/// The line shown for a read-only command in a dry run.
pub fn read_only_message(args: &Vec<String>) -> (r: String)
    ensures
        r@ == "Read-only Mono command (not executed): "@ + debug_strings(views(args@)),
{
    let mut m: Vec<char> = Vec::new();
    append_lit(&mut m, "Read-only Mono command (not executed): ");
    append(&mut m, chars_of(debug_list(args).as_str()).as_slice());
    string_of(m.as_slice())
}

/// What happened when one address was tried.
#[derive(Debug)]
pub enum Attempt {
    /// The time budget was used up before this address.
    OutOfTime,
    /// The connection succeeded.
    Connected,
    /// The connection failed, with the reason.
    Failed(String),
}

/// The TCP part of a network check so far: the address to try next (none
/// when the check is over), the address that connected, and the failures.
pub struct Probe {
    pub next: Option<usize>,
    pub connected: Option<usize>,
    pub failures: Vec<String>,
}

/// The model of a probe.
pub struct ProbeView {
    pub next: Option<int>,
    pub connected: Option<int>,
    pub failures: Seq<Seq<char>>,
}

impl View for Probe {
    type V = ProbeView;

    open spec fn view(&self) -> ProbeView {
        ProbeView {
            next: match self.next {
                Some(i) => Some(i as int),
                None => None,
            },
            connected: match self.connected {
                Some(i) => Some(i as int),
                None => None,
            },
            failures: views(self.failures@),
        }
    }
}

/// The failure noted when the time budget runs out.
pub open spec fn out_of_time() -> Seq<char> {
    "TCP time budget exhausted; remaining addresses not checked"@
}

/// The addresses are tried in order, each once, until one connects, the time
/// budget runs out, or none is left; attempts after the end change nothing.
pub open spec fn probe_of(addresses: Seq<Seq<char>>, attempts: Seq<Attempt>) -> ProbeView
    decreases attempts.len(),
{
    if attempts.len() == 0 {
        ProbeView {
            next: if addresses.len() > 0 {
                Some(0)
            } else {
                None
            },
            connected: None,
            failures: Seq::empty(),
        }
    } else {
        let p = probe_of(addresses, attempts.drop_last());
        match p.next {
            None => p,
            Some(i) => match attempts.last() {
                Attempt::OutOfTime => ProbeView { next: None, failures: p.failures.push(out_of_time()), ..p },
                Attempt::Connected => ProbeView { next: None, connected: Some(i), ..p },
                Attempt::Failed(e) => ProbeView {
                    next: if i + 1 < addresses.len() {
                        Some(i + 1)
                    } else {
                        None
                    },
                    failures: p.failures.push(addresses[i] + ": "@ + e@),
                    ..p
                },
            },
        }
    }
}

/// The TCP part of a network check after the given attempts, made in order
/// on the (sorted, distinct) addresses as text.
pub fn probe(addresses: &Vec<String>, attempts: &Vec<Attempt>) -> (r: Probe)
    ensures
        r@ == probe_of(views(addresses@), attempts@),
        r.next matches Some(i) ==> i < addresses@.len(),
        r.connected matches Some(i) ==> i < addresses@.len(),
{
    let ghost av = views(addresses@);
    let mut p = Probe {
        next: if addresses.len() > 0 {
            Some(0)
        } else {
            None
        },
        connected: None,
        failures: Vec::new(),
    };
    assert(attempts@.take(0) =~= Seq::<Attempt>::empty());
    assert(views(p.failures@) =~= Seq::<Seq<char>>::empty());
    assert(p@ =~= probe_of(av, attempts@.take(0)));
    let mut j: usize = 0;
    while j < attempts.len()
        invariant
            av == views(addresses@),
            j <= attempts@.len(),
            p@ == probe_of(av, attempts@.take(j as int)),
            p.next matches Some(i) ==> i < addresses@.len(),
            p.connected matches Some(i) ==> i < addresses@.len(),
        decreases attempts.len() - j,
    {
        assert(attempts@.take(j + 1).drop_last() =~= attempts@.take(j as int));
        assert(attempts@.take(j + 1).last() == attempts@[j as int]);
        match p.next {
            None => {},
            Some(i) => match &attempts[j] {
                Attempt::OutOfTime => {
                    let line = text("TCP time budget exhausted; remaining addresses not checked");
                    proof {
                        lemma_views_push(p.failures@, line);
                    }
                    p.failures.push(line);
                    p.next = None;
                },
                Attempt::Connected => {
                    p.next = None;
                    p.connected = Some(i);
                },
                Attempt::Failed(e) => {
                    let mut m: Vec<char> = Vec::new();
                    append(&mut m, chars_of(addresses[i].as_str()).as_slice());
                    append_lit(&mut m, ": ");
                    append(&mut m, chars_of(e.as_str()).as_slice());
                    let line = string_of(m.as_slice());
                    proof {
                        lemma_views_push(p.failures@, line);
                    }
                    p.failures.push(line);
                    let n = addresses.len();
                    assert(i < n);
                    p.next = if i < n - 1 {
                        Some(i + 1)
                    } else {
                        None
                    };
                },
            },
        }
        j = j + 1;
        assert(p@ =~= probe_of(av, attempts@.take(j as int)));
    }
    assert(attempts@.take(attempts@.len() as int) =~= attempts@);
    p
}

/// What a finished network check reports: the target, the resolved
/// addresses (DNS is skipped for an IP address), each failed attempt, and
/// whether TCP connected; a check without a connection fails.
pub open spec fn check_report(host: Seq<char>, port: u16, is_ip: bool, addresses: Seq<Seq<char>>, p: ProbeView) -> (Seq<Seq<char>>, Result<(), Seq<char>>) {
    let head = seq![
        "Target: "@ + host + ", TCP port "@ + decimal(port as nat),
        (if is_ip {
            "IP (DNS skipped)"@
        } else {
            "DNS OK"@
        }) + ": "@ + join(addresses, ", "@),
    ] + p.failures.map_values(|f: Seq<char>| "TCP attempt: "@ + f);
    match p.connected {
        Some(i) => (
            head.push("TCP OK: "@ + addresses[i] + "\nTCP connection succeeded; TLS/HTTP not checked."@),
            Ok(()),
        ),
        None => (head, Err("TCP check failed. This does not prove that the internet is unavailable."@)),
    }
}

/// What a finished network check reports.
pub fn report_check(host: &str, port: u16, is_ip: bool, addresses: &Vec<String>, p: &Probe) -> (r: (Vec<String>, Result<(), String>))
    requires
        p.connected matches Some(i) ==> i < addresses@.len(),
    ensures
        views(r.0@) == check_report(host@, port, is_ip, views(addresses@), p@).0,
        match r.1 {
            Ok(()) => check_report(host@, port, is_ip, views(addresses@), p@).1 is Ok,
            Err(e) => check_report(host@, port, is_ip, views(addresses@), p@).1 == Err::<(), Seq<char>>(e@),
        },
{
    let mut out: Vec<String> = Vec::new();
    let mut m: Vec<char> = Vec::new();
    append_lit(&mut m, "Target: ");
    append(&mut m, chars_of(host).as_slice());
    append_lit(&mut m, ", TCP port ");
    append(&mut m, decimal_of(port as u64).as_slice());
    out.push(string_of(m.as_slice()));
    let mut d: Vec<char> = Vec::new();
    if is_ip {
        append_lit(&mut d, "IP (DNS skipped)");
    } else {
        append_lit(&mut d, "DNS OK");
    }
    append_lit(&mut d, ": ");
    let mut parts: Vec<Vec<char>> = Vec::new();
    let mut i: usize = 0;
    while i < addresses.len()
        invariant
            i <= addresses@.len(),
            crate::text::texts(parts@) == views(addresses@).take(i as int),
        decreases addresses.len() - i,
    {
        let c = chars_of(addresses[i].as_str());
        proof {
            crate::text::lemma_texts_push(parts@, c);
        }
        parts.push(c);
        assert(views(addresses@).take(i + 1) =~= views(addresses@).take(i as int).push(addresses@[i as int]@));
        i = i + 1;
    }
    assert(views(addresses@).take(addresses@.len() as int) =~= views(addresses@));
    append(&mut d, crate::text::join_of(parts.as_slice(), ", ").as_slice());
    let second = string_of(d.as_slice());
    proof {
        lemma_views_push(out@, second);
    }
    out.push(second);
    let ghost head0 = views(out@);
    let ghost fl = p@.failures.map_values(|f: Seq<char>| "TCP attempt: "@ + f);
    let mut j: usize = 0;
    assert(views(out@) =~= head0 + fl.take(0));
    while j < p.failures.len()
        invariant
            fl == p@.failures.map_values(|f: Seq<char>| "TCP attempt: "@ + f),
            p@.failures == views(p.failures@),
            j <= p.failures@.len(),
            views(out@) == head0 + fl.take(j as int),
        decreases p.failures.len() - j,
    {
        let mut t: Vec<char> = Vec::new();
        append_lit(&mut t, "TCP attempt: ");
        append(&mut t, chars_of(p.failures[j].as_str()).as_slice());
        let line = string_of(t.as_slice());
        proof {
            lemma_views_push(out@, line);
        }
        out.push(line);
        assert(fl.take(j + 1) =~= fl.take(j as int).push(fl[j as int]));
        j = j + 1;
    }
    assert(fl.take(p.failures@.len() as int) =~= fl);
    match p.connected {
        Some(i) => {
            let mut t: Vec<char> = Vec::new();
            append_lit(&mut t, "TCP OK: ");
            append(&mut t, chars_of(addresses[i].as_str()).as_slice());
            append_lit(&mut t, "\nTCP connection succeeded; TLS/HTTP not checked.");
            let line = string_of(t.as_slice());
            proof {
                lemma_views_push(out@, line);
            }
            out.push(line);
            (out, Ok(()))
        },
        None => (out, Err(text("TCP check failed. This does not prove that the internet is unavailable."))),
    }
}

} // verus!
