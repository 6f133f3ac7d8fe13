//! Health levels, diagnostic results and the diagnostic sections.

use vstd::prelude::*;
use crate::text::{append, append_lit, chars_of, equals, string_of, views};

verus! {

/// The outcome of one diagnostic check.
#[derive(Clone, Copy, Debug, PartialEq, Eq, Structural)]
pub enum Health {
    Good,
    Warning,
    Error,
    Unknown,
    Skipped,
}

/// The label printed for a health level.
pub open spec fn health_label(h: Health) -> Seq<char> {
    match h {
        Health::Good => "OK"@,
        Health::Warning => "WARNING"@,
        Health::Error => "ERROR"@,
        Health::Unknown => "UNKNOWN"@,
        Health::Skipped => "SKIPPED"@,
    }
}

/// Only warnings and errors are problems: an unavailable or skipped check is
/// neither a problem nor a success.
pub open spec fn is_problem(h: Health) -> bool {
    h is Warning || h is Error
}

impl Health {
    pub fn label(self) -> (r: &'static str)
        ensures
            r@ == health_label(self),
    {
        match self {
            Health::Good => "OK",
            Health::Warning => "WARNING",
            Health::Error => "ERROR",
            Health::Unknown => "UNKNOWN",
            Health::Skipped => "SKIPPED",
        }
    }

    pub fn problem(self) -> (r: bool)
        ensures
            r == is_problem(self),
    {
        match self {
            Health::Warning | Health::Error => true,
            _ => false,
        }
    }
}

/// The result of one diagnostic check: a name, a health level and lines of detail.
#[derive(Debug)]
pub struct Check {
    pub name: &'static str,
    pub health: Health,
    pub details: Vec<String>,
}

impl Check {
    /// A check with one line of detail.
    pub fn new(name: &'static str, health: Health, detail: String) -> (r: Check)
        ensures
            r.name == name,
            r.health == health,
            views(r.details@) == seq![detail@],
    {
        let mut details: Vec<String> = Vec::new();
        details.push(detail);
        assert(views(details@) =~= seq![detail@]);
        Check { name, health, details }
    }
}

/// A check whose data could not be obtained: `Unknown`, with the reason.
pub fn unknown(name: &'static str, error: String) -> (r: Check)
    ensures
        r.name == name,
        r.health == Health::Unknown,
        views(r.details@) == seq![error@],
{
    Check::new(name, Health::Unknown, error)
}

/// The parts of the system that can be diagnosed.
#[derive(Clone, Copy, Debug, PartialEq, Eq, Structural)]
pub enum Section {
    System,
    Cpu,
    Memory,
    Storage,
    Filesystems,
    Temperature,
    Network,
    Services,
    Boot,
    Hardware,
    Power,
    Logs,
}

/// Every section, in report order.
pub open spec fn all_sections() -> Seq<Section> {
    seq![
        Section::System,
        Section::Cpu,
        Section::Memory,
        Section::Storage,
        Section::Filesystems,
        Section::Temperature,
        Section::Network,
        Section::Services,
        Section::Boot,
        Section::Hardware,
        Section::Power,
        Section::Logs,
    ]
}

/// The name by which a section is asked for.
pub open spec fn section_name(s: Section) -> Seq<char> {
    match s {
        Section::System => "system"@,
        Section::Cpu => "cpu"@,
        Section::Memory => "memory"@,
        Section::Storage => "storage"@,
        Section::Filesystems => "filesystems"@,
        Section::Temperature => "temperature"@,
        Section::Network => "network"@,
        Section::Services => "services"@,
        Section::Boot => "boot"@,
        Section::Hardware => "hardware"@,
        Section::Power => "power"@,
        Section::Logs => "logs"@,
    }
}

/// The section with the given name, if any.
pub open spec fn section_named(name: Seq<char>) -> Option<Section> {
    if name == "system"@ {
        Some(Section::System)
    } else if name == "cpu"@ {
        Some(Section::Cpu)
    } else if name == "memory"@ {
        Some(Section::Memory)
    } else if name == "storage"@ {
        Some(Section::Storage)
    } else if name == "filesystems"@ {
        Some(Section::Filesystems)
    } else if name == "temperature"@ {
        Some(Section::Temperature)
    } else if name == "network"@ {
        Some(Section::Network)
    } else if name == "services"@ {
        Some(Section::Services)
    } else if name == "boot"@ {
        Some(Section::Boot)
    } else if name == "hardware"@ {
        Some(Section::Hardware)
    } else if name == "power"@ {
        Some(Section::Power)
    } else if name == "logs"@ {
        Some(Section::Logs)
    } else {
        None
    }
}

impl Section {
    pub fn name(self) -> (r: &'static str)
        ensures
            r@ == section_name(self),
    {
        match self {
            Section::System => "system",
            Section::Cpu => "cpu",
            Section::Memory => "memory",
            Section::Storage => "storage",
            Section::Filesystems => "filesystems",
            Section::Temperature => "temperature",
            Section::Network => "network",
            Section::Services => "services",
            Section::Boot => "boot",
            Section::Hardware => "hardware",
            Section::Power => "power",
            Section::Logs => "logs",
        }
    }

    /// Every section, in report order.
    pub fn all() -> (r: Vec<Section>)
        ensures
            r@ == all_sections(),
    {
        let r = vec![
            Section::System,
            Section::Cpu,
            Section::Memory,
            Section::Storage,
            Section::Filesystems,
            Section::Temperature,
            Section::Network,
            Section::Services,
            Section::Boot,
            Section::Hardware,
            Section::Power,
            Section::Logs,
        ];
        assert(r@ =~= all_sections());
        r
    }

    /// The section with the given name, if any.
    pub fn named(name: &str) -> (r: Option<Section>)
        ensures
            r == section_named(name@),
    {
        let v = chars_of(name);
        let s = v.as_slice();
        if equals(s, "system") {
            Some(Section::System)
        } else if equals(s, "cpu") {
            Some(Section::Cpu)
        } else if equals(s, "memory") {
            Some(Section::Memory)
        } else if equals(s, "storage") {
            Some(Section::Storage)
        } else if equals(s, "filesystems") {
            Some(Section::Filesystems)
        } else if equals(s, "temperature") {
            Some(Section::Temperature)
        } else if equals(s, "network") {
            Some(Section::Network)
        } else if equals(s, "services") {
            Some(Section::Services)
        } else if equals(s, "boot") {
            Some(Section::Boot)
        } else if equals(s, "hardware") {
            Some(Section::Hardware)
        } else if equals(s, "power") {
            Some(Section::Power)
        } else if equals(s, "logs") {
            Some(Section::Logs)
        } else {
            None
        }
    }
}

/// The sections that a diagnosis of `section` runs: every section for
/// `system`, else the section itself; an unknown name is refused.
pub fn diagnose(section: &str) -> (r: Result<Vec<Section>, String>)
    ensures
        match r {
            Ok(v) => section_named(section@) matches Some(s) && v@ == if s is System {
                all_sections()
            } else {
                seq![s]
            },
            Err(e) => section_named(section@) is None && e@ == "Unknown diagnostic section: "@
                + section@ + ". Run mono help diagnose"@,
        },
{
    match Section::named(section) {
        Some(Section::System) => Ok(Section::all()),
        Some(s) => {
            let v = vec![s];
            assert(v@ =~= seq![s]);
            Ok(v)
        },
        None => {
            let mut m: Vec<char> = Vec::new();
            append_lit(&mut m, "Unknown diagnostic section: ");
            append(&mut m, chars_of(section).as_slice());
            append_lit(&mut m, ". Run mono help diagnose");
            Err(string_of(m.as_slice()))
        },
    }
}

} // verus!
