# monux

Monux (`mono`) is a small command-line front end for an Arch Linux system
(also under WSL2): it plans and runs file, package, service, device and
network commands, checks network reachability, and diagnoses the system.

The decisions of the tool are a library verified with Verus; the program
around it performs the input and output.

## Layout

- `src/` — the verified library.
  - `text.rs`, `numbers.rs`, `paths.rs` — text, decimal and Unix path
    arithmetic over `Seq<char>` models.
  - `capabilities.rs`, `checks.rs` — validation of package names, hosts,
    user names, service names, process names and device names.
  - `command.rs` — plans: the programs a command runs, with their arguments.
  - `probe.rs` — the exchange with the system during planning: a planning
    function names the next fact it needs (`Query`) and is called again with
    the answers so far.
  - `commands.rs`, `removal.rs` — the plan of every command, deletion with
    its protections, and the checks before formatting.
  - `runner.rs` — running a plan: tool checks, confirmation, re-validation
    and the steps, as decisions between the effects the caller performs.
  - `cli.rs`, `help.rs` — the command line, help pages and network check
    reports.
  - `diagnostics.rs`, `evaluate.rs`, `report.rs`, `platform.rs` — health
    levels, the evaluation of probe data, the diagnostics report and the Arch
    backend's status and install gates.
  - `laws.rs` — properties of the whole library, proved.
- `tests/` — tests of the library on concrete values.
- `app/` — the program: argument handling, the system calls that answer the
  library's queries and perform its effects, and the measurements that need
  floating point.
