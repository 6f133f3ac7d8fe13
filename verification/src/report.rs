//! The diagnostics report: which section is asked for, and the lines that
//! present the checks of a diagnosis.

use vstd::prelude::*;
use crate::diagnostics::{health_label, is_problem, section_named, Check, Health, Section};
use crate::numbers::{decimal, decimal_of};
use crate::text::{
    append, append_lit, chars_of, lemma_views_push, lowercase, lowercase_of, string_of, views,
};

verus! {

/// The section asked for by name; an unknown name is refused with a pointer
/// to the help.
pub fn check_section(section: &str) -> (r: Result<Section, String>)
    ensures
        match r {
            Ok(s) => section_named(section@) == Some(s),
            Err(e) => section_named(section@) is None && e@ == "Unknown section: "@ + section@
                + ". Run mono help diagnose"@,
        },
{
    match Section::named(section) {
        Some(s) => Ok(s),
        None => {
            let mut m: Vec<char> = Vec::new();
            append_lit(&mut m, "Unknown section: ");
            append(&mut m, chars_of(section).as_slice());
            append_lit(&mut m, ". Run mono help diagnose");
            Err(string_of(m.as_slice()))
        },
    }
}

/// What a dry run of a diagnosis says: the section, that nothing runs, and
/// for the sections that probe the network, which probes they would make.
pub open spec fn dry_run_text(section: Section, name: Seq<char>) -> Seq<Seq<char>> {
    let first = "Diagnostics: "@ + name + ". Read-only checks; nothing executed."@;
    if section is System || section is Network {
        seq![first, "Network probes: DNS archlinux.org; TCP/443 to 1.1.1.1 or 9.9.9.9."@]
    } else {
        seq![first]
    }
}

/// The lines of a dry run of a diagnosis of `section`.
pub fn dry_run_lines(section: Section) -> (r: Vec<String>)
    ensures
        views(r@) == dry_run_text(section, crate::diagnostics::section_name(section)),
{
    let mut m: Vec<char> = Vec::new();
    append_lit(&mut m, "Diagnostics: ");
    append(&mut m, chars_of(section.name()).as_slice());
    append_lit(&mut m, ". Read-only checks; nothing executed.");
    let mut r: Vec<String> = Vec::new();
    r.push(string_of(m.as_slice()));
    match section {
        Section::System | Section::Network => {
            r.push(
                string_of(
                    chars_of(
                        "Network probes: DNS archlinux.org; TCP/443 to 1.1.1.1 or 9.9.9.9.",
                    ).as_slice(),
                ),
            );
        },
        _ => {},
    }
    assert(views(r@) =~= dry_run_text(section, crate::diagnostics::section_name(section)));
    r
}

/// `s` padded with spaces on the right to `width` characters, as `{:<width}`
/// formats it; a longer text is kept whole.
pub open spec fn padded(s: Seq<char>, width: nat) -> Seq<char> {
    if s.len() >= width {
        s
    } else {
        s + Seq::new((width - s.len()) as nat, |i: int| ' ')
    }
}

/// How many of the healths satisfy `f`.
pub open spec fn count(hs: Seq<Health>, f: spec_fn(Health) -> bool) -> nat
    decreases hs.len(),
{
    if hs.len() == 0 {
        0
    } else {
        count(hs.drop_last(), f) + if f(hs.last()) {
            1nat
        } else {
            0nat
        }
    }
}

/// The healths of the checks.
pub open spec fn check_healths(cs: Seq<Check>) -> Seq<Health> {
    cs.map_values(|c: Check| c.health)
}

/// The number of checks that found a problem.
pub open spec fn problem_count(cs: Seq<Check>) -> nat {
    count(check_healths(cs), |h: Health| is_problem(h))
}

/// The mark before the details of a check.
pub open spec fn mark(h: Health) -> Seq<char> {
    match h {
        Health::Error => "X"@,
        Health::Warning => "!"@,
        Health::Good => "+"@,
        _ => "?"@,
    }
}

/// The status line of one check: its name padded to 13 characters and its label.
pub open spec fn status_line(c: Check) -> Seq<char> {
    padded(c.name@, 13) + " "@ + health_label(c.health)
}

/// The block that details one check: a mark and the name, then each detail
/// line indented.
pub open spec fn detail_block(c: Check) -> Seq<Seq<char>> {
    seq!["\n["@ + mark(c.health) + "] "@ + c.name@] + views(c.details@).map_values(
        |d: Seq<char>| "    "@ + d,
    )
}

/// Whether a check is detailed: every check of a single section, and only
/// the checks that are not healthy in a full system diagnosis.
pub open spec fn detailed(c: Check, section: Section) -> bool {
    !(c.health is Good) || !(section is System)
}

/// The detail blocks of the detailed checks, in order.
pub open spec fn detail_blocks(cs: Seq<Check>, section: Section) -> Seq<Seq<char>>
    decreases cs.len(),
{
    if cs.len() == 0 {
        Seq::empty()
    } else {
        detail_blocks(cs.drop_last(), section) + if detailed(cs.last(), section) {
            detail_block(cs.last())
        } else {
            Seq::empty()
        }
    }
}

/// The commands suggested for the checks that found a problem, in order.
pub open spec fn suggestions(cs: Seq<Check>) -> Seq<Seq<char>>
    decreases cs.len(),
{
    if cs.len() == 0 {
        Seq::empty()
    } else {
        suggestions(cs.drop_last()) + if is_problem(cs.last().health) {
            seq!["    mono diagnose "@ + lowercase(cs.last().name@)]
        } else {
            Seq::<Seq<char>>::empty()
        }
    }
}

/// The report on the checks of a diagnosis of `section`: a title, one status
/// line per check, the number of problems, how many checks were unavailable
/// or skipped when there are any, the detail blocks, and, when problems were
/// found, the commands that look closer at each of them.
pub open spec fn report_text(cs: Seq<Check>, section: Section) -> Seq<Seq<char>> {
    let hs = check_healths(cs);
    let problems = problem_count(cs);
    let unknown = count(hs, |h: Health| h is Unknown);
    let skipped = count(hs, |h: Health| h is Skipped);
    seq!["Monux System Diagnostics\n"@] + cs.map_values(|c: Check| status_line(c)) + seq![
        "\nProblems found: "@ + decimal(problems),
    ] + (if unknown + skipped > 0 {
        seq!["Unavailable: "@ + decimal(unknown) + "; skipped: "@ + decimal(skipped)]
    } else {
        Seq::<Seq<char>>::empty()
    }) + detail_blocks(cs, section) + (if problems > 0 {
        seq!["\nRun:"@] + suggestions(cs)
    } else {
        Seq::<Seq<char>>::empty()
    })
}

proof fn lemma_count_step(hs: Seq<Health>, i: int, f: spec_fn(Health) -> bool)
    requires
        0 <= i < hs.len(),
    ensures
        count(hs.take(i + 1), f) == count(hs.take(i), f) + if f(hs[i]) {
            1nat
        } else {
            0nat
        },
        count(hs.take(i), f) <= i,
    decreases i,
{
    assert(hs.take(i + 1).drop_last() =~= hs.take(i));
    if i > 0 {
        lemma_count_step(hs, i - 1, f);
    } else {
        assert(hs.take(0) =~= Seq::<Health>::empty());
    }
}

/// The status line of one check.
fn status_line_of(c: &Check) -> (r: String)
    ensures
        r@ == status_line(*c),
{
    let name = chars_of(c.name);
    let mut m: Vec<char> = Vec::new();
    append(&mut m, name.as_slice());
    let mut k: usize = name.len();
    while k < 13
        invariant
            name@ == c.name@,
            name@.len() <= k <= 13 || (k == name@.len() && k >= 13),
            m@ == name@ + Seq::new((k - name@.len()) as nat, |i: int| ' '),
        decreases 13 - k,
    {
        m.push(' ');
        k = k + 1;
        assert(m@ =~= name@ + Seq::new((k - name@.len()) as nat, |i: int| ' '));
    }
    assert(m@ =~= padded(c.name@, 13)) by {
        if name@.len() >= 13 {
            assert(m@ =~= name@);
        }
    }
    append_lit(&mut m, " ");
    append(&mut m, chars_of(c.health.label()).as_slice());
    string_of(m.as_slice())
}

/// Adds the detail block of one check.
fn push_detail_block(out: &mut Vec<String>, c: &Check)
    ensures
        views(final(out)@) == views(old(out)@) + detail_block(*c),
{
    let mark = match c.health {
        Health::Error => "X",
        Health::Warning => "!",
        Health::Good => "+",
        _ => "?",
    };
    let mut m: Vec<char> = Vec::new();
    append_lit(&mut m, "\n[");
    append_lit(&mut m, mark);
    append_lit(&mut m, "] ");
    append(&mut m, chars_of(c.name).as_slice());
    let head = string_of(m.as_slice());
    proof {
        lemma_views_push(out@, head);
    }
    out.push(head);
    let ghost start = views(old(out)@).push(head@);
    let ghost lines = views(c.details@).map_values(|d: Seq<char>| "    "@ + d);
    let mut j: usize = 0;
    assert(views(out@) =~= start + lines.take(0));
    while j < c.details.len()
        invariant
            start == views(old(out)@).push(head@),
            lines == views(c.details@).map_values(|d: Seq<char>| "    "@ + d),
            j <= c.details@.len(),
            views(out@) == start + lines.take(j as int),
        decreases c.details.len() - j,
    {
        let mut d: Vec<char> = Vec::new();
        append_lit(&mut d, "    ");
        append(&mut d, chars_of(c.details[j].as_str()).as_slice());
        let line = string_of(d.as_slice());
        proof {
            lemma_views_push(out@, line);
        }
        out.push(line);
        assert(lines.take(j + 1) =~= lines.take(j as int).push(lines[j as int]));
        j = j + 1;
    }
    assert(lines.take(c.details@.len() as int) =~= lines);
    assert(views(old(out)@) + detail_block(*c) =~= start + lines);
}

/// The report on the checks of a diagnosis of `section`.
pub fn report(section: Section, checks: &Vec<Check>) -> (r: Vec<String>)
    ensures
        views(r@) == report_text(checks@, section),
{
    let ghost cs = checks@;
    let ghost hs = check_healths(cs);
    let mut out: Vec<String> = Vec::new();
    let title = string_of(chars_of("Monux System Diagnostics\n").as_slice());
    out.push(title);
    let ghost statuses = cs.map_values(|c: Check| status_line(c));
    let mut problems: usize = 0;
    let mut unknown: usize = 0;
    let mut skipped: usize = 0;
    let mut i: usize = 0;
    assert(views(out@) =~= seq!["Monux System Diagnostics\n"@] + statuses.take(0));
    assert(hs.take(0) =~= Seq::<Health>::empty());
    while i < checks.len()
        invariant
            cs == checks@,
            hs == check_healths(cs),
            statuses == cs.map_values(|c: Check| status_line(c)),
            i <= cs.len(),
            views(out@) == seq!["Monux System Diagnostics\n"@] + statuses.take(i as int),
            problems == count(hs.take(i as int), |h: Health| is_problem(h)),
            unknown == count(hs.take(i as int), |h: Health| h is Unknown),
            skipped == count(hs.take(i as int), |h: Health| h is Skipped),
        decreases checks.len() - i,
    {
        let c = &checks[i];
        let line = status_line_of(c);
        proof {
            lemma_views_push(out@, line);
            lemma_count_step(hs, i as int, |h: Health| is_problem(h));
            lemma_count_step(hs, i as int, |h: Health| h is Unknown);
            lemma_count_step(hs, i as int, |h: Health| h is Skipped);
        }
        out.push(line);
        if c.health.problem() {
            problems = problems + 1;
        }
        match c.health {
            Health::Unknown => {
                unknown = unknown + 1;
            },
            Health::Skipped => {
                skipped = skipped + 1;
            },
            _ => {},
        }
        assert(statuses.take(i + 1) =~= statuses.take(i as int).push(statuses[i as int]));
        i = i + 1;
    }
    assert(statuses.take(cs.len() as int) =~= statuses);
    assert(hs.take(cs.len() as int) =~= hs);
    let mut m: Vec<char> = Vec::new();
    append_lit(&mut m, "\nProblems found: ");
    append(&mut m, decimal_of(problems as u64).as_slice());
    let line = string_of(m.as_slice());
    proof {
        lemma_views_push(out@, line);
    }
    out.push(line);
    if unknown > 0 || skipped > 0 {
        let mut u: Vec<char> = Vec::new();
        append_lit(&mut u, "Unavailable: ");
        append(&mut u, decimal_of(unknown as u64).as_slice());
        append_lit(&mut u, "; skipped: ");
        append(&mut u, decimal_of(skipped as u64).as_slice());
        let line = string_of(u.as_slice());
        proof {
            lemma_views_push(out@, line);
        }
        out.push(line);
    }
    let ghost before = views(out@);
    let mut j: usize = 0;
    assert(cs.take(0) =~= Seq::<Check>::empty());
    assert(views(out@) =~= before + detail_blocks(cs.take(0), section));
    while j < checks.len()
        invariant
            cs == checks@,
            j <= cs.len(),
            views(out@) == before + detail_blocks(cs.take(j as int), section),
        decreases checks.len() - j,
    {
        let c = &checks[j];
        assert(cs.take(j + 1).drop_last() =~= cs.take(j as int));
        if !(c.health == Health::Good) || !(section == Section::System) {
            push_detail_block(&mut out, c);
        }
        assert(views(out@) =~= before + detail_blocks(cs.take(j + 1), section));
        j = j + 1;
    }
    assert(cs.take(cs.len() as int) =~= cs);
    if problems > 0 {
        let run = string_of(chars_of("\nRun:").as_slice());
        proof {
            lemma_views_push(out@, run);
        }
        out.push(run);
        let ghost mid = views(out@);
        let mut k: usize = 0;
        assert(views(out@) =~= mid + suggestions(cs.take(0)));
        while k < checks.len()
            invariant
                cs == checks@,
                k <= cs.len(),
                views(out@) == mid + suggestions(cs.take(k as int)),
            decreases checks.len() - k,
        {
            let c = &checks[k];
            assert(cs.take(k + 1).drop_last() =~= cs.take(k as int));
            if c.health.problem() {
                let mut s: Vec<char> = Vec::new();
                append_lit(&mut s, "    mono diagnose ");
                append(&mut s, lowercase_of(chars_of(c.name).as_slice()).as_slice());
                let line = string_of(s.as_slice());
                proof {
                    lemma_views_push(out@, line);
                }
                out.push(line);
            }
            assert(views(out@) =~= mid + suggestions(cs.take(k + 1)));
            k = k + 1;
        }
    }
    out
}

} // verus!
