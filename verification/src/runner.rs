//! Running a plan: the decisions between the system's answers.
//!
//! Running checks every tool before anything runs, validates a formatting
//! target, asks for confirmation, plans a deletion once more, and then runs
//! the steps in order, stopping at the first failure. The caller performs
//! each effect this module asks for and reports what happened; `execute` is
//! called again with all the events so far, in order.

use vstd::prelude::*;
use crate::command::{plan_lines, Plan, PlanView, Step, StepView};
use crate::numbers::{decimal, decimal_of};
use crate::probe::mismatch;
use crate::text::{
    append, append_lit, chars_of, equals, lemma_views_push, string_of, trim, trim_of, views,
};

verus! {

/// How a waited-for program ended: whether it succeeded, and its exit status as text.
#[derive(Debug)]
pub struct RunStatus {
    pub success: bool,
    pub status: String,
}

/// What happened when an effect was performed.
#[derive(Debug)]
pub enum Event {
    /// Whether the program of a step is a file.
    ToolChecked(bool),
    /// The outcome of validating the formatting target.
    FormatChecked(Result<(), String>),
    /// Whether input comes from an interactive terminal.
    Terminal(bool),
    /// The line typed at the confirmation prompt, or why none could be read.
    Answered(Result<String, String>),
    /// The outcome of planning the deletion once more.
    Rechecked(Result<(), String>),
    /// The outcome of creating a new empty file.
    Created(Result<(), String>),
    /// The process id of a started background program, or why it did not start.
    Started(Result<u32, String>),
    /// How a waited-for program ended, or why it did not start.
    Finished(Result<RunStatus, String>),
}

/// What the caller does next.
#[derive(Debug)]
pub enum Effect {
    /// Find out whether the program at this path is a file.
    CheckTool(String),
    /// Validate the device as a formatting target.
    ValidateFormat(String),
    /// Find out whether input comes from an interactive terminal.
    CheckTerminal,
    /// Show the prompt (without a line break) and read one line.
    ReadConfirmation(String),
    /// Plan the deletion with these arguments once more.
    Recheck(Vec<String>),
    /// Create a new empty file at this path; an existing one is an error.
    CreateFile(String),
    /// Start the program with these arguments in the background.
    Spawn(String, Vec<String>),
    /// Run the program with these arguments and wait for it.
    Run(String, Vec<String>),
    /// Stop: the run succeeded, or failed with this message.
    Finish(Result<(), String>),
}

/// Lines to print, then an effect to perform.
#[derive(Debug)]
pub struct Action {
    pub print: Vec<String>,
    pub effect: Effect,
}

/// The model of an effect.
pub enum EffectView {
    CheckTool(Seq<char>),
    ValidateFormat(Seq<char>),
    CheckTerminal,
    ReadConfirmation(Seq<char>),
    Recheck(Seq<Seq<char>>),
    CreateFile(Seq<char>),
    Spawn(Seq<char>, Seq<Seq<char>>),
    Run(Seq<char>, Seq<Seq<char>>),
    Finish(Result<(), Seq<char>>),
}

impl View for Effect {
    type V = EffectView;

    open spec fn view(&self) -> EffectView {
        match self {
            Effect::CheckTool(p) => EffectView::CheckTool(p@),
            Effect::ValidateFormat(d) => EffectView::ValidateFormat(d@),
            Effect::CheckTerminal => EffectView::CheckTerminal,
            Effect::ReadConfirmation(p) => EffectView::ReadConfirmation(p@),
            Effect::Recheck(a) => EffectView::Recheck(views(a@)),
            Effect::CreateFile(p) => EffectView::CreateFile(p@),
            Effect::Spawn(p, a) => EffectView::Spawn(p@, views(a@)),
            Effect::Run(p, a) => EffectView::Run(p@, views(a@)),
            Effect::Finish(Ok(())) => EffectView::Finish(Ok(())),
            Effect::Finish(Err(e)) => EffectView::Finish(Err(e@)),
        }
    }
}

/// The model of an action.
pub struct ActionView {
    pub print: Seq<Seq<char>>,
    pub effect: EffectView,
}

impl View for Action {
    type V = ActionView;

    open spec fn view(&self) -> ActionView {
        ActionView { print: views(self.print@), effect: self.effect@ }
    }
}

/// The action that prints `print` and then does `effect`.
pub open spec fn act(print: Seq<Seq<char>>, effect: EffectView) -> ActionView {
    ActionView { print, effect }
}

/// The action that stops with `r`, printing nothing more.
pub open spec fn fail(e: Seq<char>) -> ActionView {
    act(Seq::empty(), EffectView::Finish(Err(e)))
}

/// Where a phase of the run ends: it went through with `k` events used and
/// lines still to print, or it decided the next action.
pub enum Phase {
    Go(int, Seq<Seq<char>>),
    Act(ActionView),
}

/// The executable form of a phase's end.
pub enum Turn {
    Go(usize, Vec<String>),
    Act(Action),
}

impl View for Turn {
    type V = Phase;

    open spec fn view(&self) -> Phase {
        match self {
            Turn::Go(k, p) => Phase::Go(*k as int, views(p@)),
            Turn::Act(a) => Phase::Act(a@),
        }
    }
}

/// The `k`-th event, if it has happened.
pub open spec fn event_at(ev: Seq<Event>, k: int) -> Option<Event> {
    if 0 <= k < ev.len() {
        Some(ev[k])
    } else {
        None
    }
}

/// The pseudo-program of a step that creates an empty file.
pub open spec fn create_marker() -> Seq<char> {
    "@create-file"@
}

/// The trash tool.
pub open spec fn trash_tool() -> Seq<char> {
    "/usr/bin/gio"@
}

/// Why a plan cannot run when one of its tools is missing.
pub open spec fn missing_tool(program: Seq<char>) -> Seq<char> {
    if program == trash_tool() {
        "Корзина недоступна. Объект сохранён. Для удаления без корзины явно укажите --permanent."@
    } else {
        "В окружении недоступна нужная возможность ("@ + program
            + "). См. mono manual backend <command>."@
    }
}

/// Every tool is checked before anything runs: the steps from `i` on, with
/// `k` events used.
pub open spec fn tools_phase(steps: Seq<StepView>, i: int, ev: Seq<Event>, k: int) -> Phase
    decreases steps.len() - i,
{
    if i < 0 || i >= steps.len() {
        Phase::Go(k, Seq::empty())
    } else if steps[i].program == create_marker() {
        tools_phase(steps, i + 1, ev, k)
    } else {
        match event_at(ev, k) {
            None => Phase::Act(act(Seq::empty(), EffectView::CheckTool(steps[i].program))),
            Some(Event::ToolChecked(true)) => tools_phase(steps, i + 1, ev, k + 1),
            Some(Event::ToolChecked(false)) => Phase::Act(fail(missing_tool(steps[i].program))),
            Some(_) => Phase::Act(fail(mismatch())),
        }
    }
}

/// A formatting target is validated (again) at this point.
pub open spec fn format_phase(device: Option<Seq<char>>, ev: Seq<Event>, k: int, pending: Seq<Seq<char>>) -> Phase {
    match device {
        None => Phase::Go(k, pending),
        Some(d) => match event_at(ev, k) {
            None => Phase::Act(act(pending, EffectView::ValidateFormat(d))),
            Some(Event::FormatChecked(Ok(()))) => Phase::Go(k + 1, Seq::empty()),
            Some(Event::FormatChecked(Err(e))) => Phase::Act(fail(e@)),
            Some(_) => Phase::Act(fail(mismatch())),
        },
    }
}

/// The text that confirms a plan: the device a format targets, else `yes`.
pub open spec fn expected_answer(p: PlanView) -> Seq<char> {
    match p.format_device {
        Some(d) => d,
        None => "yes"@,
    }
}

/// The `Debug` text of a string, as `format!("{:?}", ..)` writes it.
pub uninterp spec fn debug_text(s: Seq<char>) -> Seq<char>;

/// The confirmation prompt.
pub open spec fn prompt(p: PlanView) -> Seq<char> {
    "Confirm by typing "@ + debug_text(expected_answer(p)) + ": "@
}

/// Why a plan that needs confirmation cannot run without a terminal.
pub open spec fn no_terminal() -> Seq<char> {
    "Confirmation requires an interactive terminal. Use --dry-run to inspect the plan."@
}

/// A plan that needs confirmation is shown, runs only from a terminal and
/// only when the typed line, trimmed, is the expected text; any other plan
/// shows its notes.
pub open spec fn confirm_phase(p: PlanView, ev: Seq<Event>, k: int) -> Phase {
    if !p.confirm {
        Phase::Go(k, p.notes)
    } else {
        match event_at(ev, k) {
            None => Phase::Act(act(plan_lines(p), EffectView::CheckTerminal)),
            Some(Event::Terminal(false)) => Phase::Act(fail(no_terminal())),
            Some(Event::Terminal(true)) => match event_at(ev, k + 1) {
                None => Phase::Act(act(Seq::empty(), EffectView::ReadConfirmation(prompt(p)))),
                Some(Event::Answered(Ok(line))) => if trim(line@) == expected_answer(p) {
                    Phase::Go(k + 2, Seq::empty())
                } else {
                    Phase::Act(fail("Cancelled; no changes made"@))
                },
                Some(Event::Answered(Err(e))) => Phase::Act(fail(e@)),
                Some(_) => Phase::Act(fail(mismatch())),
            },
            Some(_) => Phase::Act(fail(mismatch())),
        }
    }
}

/// A deletion is planned once more right before it runs.
pub open spec fn recheck_phase(args: Option<Seq<Seq<char>>>, ev: Seq<Event>, k: int, pending: Seq<Seq<char>>) -> Phase {
    match args {
        None => Phase::Go(k, pending),
        Some(a) => match event_at(ev, k) {
            None => Phase::Act(act(pending, EffectView::Recheck(a))),
            Some(Event::Rechecked(Ok(()))) => Phase::Go(k + 1, Seq::empty()),
            Some(Event::Rechecked(Err(e))) => Phase::Act(fail(e@)),
            Some(_) => Phase::Act(fail(mismatch())),
        },
    }
}

/// Why a step's program reported failure.
pub open spec fn step_failed(program: Seq<char>, status: Seq<char>) -> Seq<char> {
    if program == trash_tool() {
        "Не удалось переместить объект в корзину. Окончательное удаление не выполнялось."@
    } else {
        program + " returned "@ + status
    }
}

/// The line shown after a background program started.
pub open spec fn started_line(pid: u32) -> Seq<char> {
    "Started PID "@ + decimal(pid as nat) + " (application readiness not checked)"@
}

/// The steps from `i` on run in order; the first failure stops the run.
pub open spec fn run_phase(steps: Seq<StepView>, i: int, ev: Seq<Event>, k: int, pending: Seq<Seq<char>>) -> ActionView
    decreases steps.len() - i,
{
    if i < 0 || i >= steps.len() {
        act(pending, EffectView::Finish(Ok(())))
    } else {
        let s = steps[i];
        if s.program == create_marker() {
            match event_at(ev, k) {
                None => act(pending, EffectView::CreateFile(s.args[0])),
                Some(Event::Created(Ok(()))) => run_phase(steps, i + 1, ev, k + 1, Seq::empty()),
                Some(Event::Created(Err(e))) => fail(e@),
                Some(_) => fail(mismatch()),
            }
        } else if s.detached {
            match event_at(ev, k) {
                None => act(pending, EffectView::Spawn(s.program, s.args)),
                Some(Event::Started(Ok(pid))) => run_phase(steps, i + 1, ev, k + 1, seq![started_line(pid)]),
                Some(Event::Started(Err(e))) => fail(e@),
                Some(_) => fail(mismatch()),
            }
        } else {
            match event_at(ev, k) {
                None => act(pending, EffectView::Run(s.program, s.args)),
                Some(Event::Finished(Ok(st))) => if st.success {
                    run_phase(steps, i + 1, ev, k + 1, Seq::empty())
                } else {
                    fail(step_failed(s.program, st.status@))
                },
                Some(Event::Finished(Err(e))) => fail(s.program + ": "@ + e@),
                Some(_) => fail(mismatch()),
            }
        }
    }
}

/// What running plan `p` does next, after the events `ev`: a dry run only
/// shows the plan; otherwise the tools are checked, a formatting target is
/// validated, confirmation is asked for when the plan needs it (else its
/// notes are shown), the target is validated again, a deletion is planned
/// once more, and the steps run.
pub open spec fn execution(p: PlanView, dry_run: bool, ev: Seq<Event>) -> ActionView {
    if dry_run {
        act(plan_lines(p), EffectView::Finish(Ok(())))
    } else {
        match tools_phase(p.steps, 0, ev, 0) {
            Phase::Act(a) => a,
            Phase::Go(k1, _) => match format_phase(p.format_device, ev, k1, Seq::empty()) {
                Phase::Act(a) => a,
                Phase::Go(k2, _) => match confirm_phase(p, ev, k2) {
                    Phase::Act(a) => a,
                    Phase::Go(k3, pending) => match format_phase(p.format_device, ev, k3, pending) {
                        Phase::Act(a) => a,
                        Phase::Go(k4, pending) => match recheck_phase(p.delete_args, ev, k4, pending) {
                            Phase::Act(a) => a,
                            Phase::Go(k5, pending) => run_phase(p.steps, 0, ev, k5, pending),
                        },
                    },
                },
            },
        }
    }
}

/// Every file-creating step names the file.
pub open spec fn well_formed(p: PlanView) -> bool {
    forall|i: int| 0 <= i < p.steps.len() && #[trigger] p.steps[i].program == create_marker() ==> p.steps[i].args.len() > 0
}

/// `format!("{:?}", s)`: std's `Debug` rendering of a string (quoted, with
/// escapes). Its text depends on the string alone; no clause spells it out.
#[verifier::external_body]
pub(crate) fn quoted(s: &str) -> (r: String)
    ensures
        r@ == debug_text(s@),
{
    format!("{:?}", s)
}

fn text(s: &str) -> (r: String)
    ensures
        r@ == s@,
{
    string_of(chars_of(s).as_slice())
}

fn failed(e: String) -> (r: Turn)
    ensures
        r@ == Phase::Act(fail(e@)),
{
    let a = Action { print: Vec::new(), effect: Effect::Finish(Err(e)) };
    assert(views(a.print@) =~= Seq::<Seq<char>>::empty());
    Turn::Act(a)
}

fn stopped(e: String) -> (r: Action)
    ensures
        r@ == fail(e@),
{
    let a = Action { print: Vec::new(), effect: Effect::Finish(Err(e)) };
    assert(views(a.print@) =~= Seq::<Seq<char>>::empty());
    a
}

fn mismatched() -> (r: Turn)
    ensures
        r@ == Phase::Act(fail(mismatch())),
{
    failed(crate::probe::mismatch_text())
}

fn is_marker(program: &String) -> (r: bool)
    ensures
        r == (program@ == create_marker()),
{
    equals(chars_of(program.as_str()).as_slice(), "@create-file")
}

fn is_trash(program: &String) -> (r: bool)
    ensures
        r == (program@ == trash_tool()),
{
    equals(chars_of(program.as_str()).as_slice(), "/usr/bin/gio")
}

fn copy_strings(v: &Vec<String>) -> (r: Vec<String>)
    ensures
        views(r@) == views(v@),
{
    let mut r: Vec<String> = Vec::new();
    let mut i: usize = 0;
    while i < v.len()
        invariant
            i <= v@.len(),
            views(r@) == views(v@).take(i as int),
        decreases v.len() - i,
    {
        let s = text(v[i].as_str());
        proof {
            lemma_views_push(r@, s);
        }
        r.push(s);
        assert(views(v@).take(i + 1) =~= views(v@).take(i as int).push(v@[i as int]@));
        i = i + 1;
    }
    assert(views(v@).take(v@.len() as int) =~= views(v@));
    r
}

fn check_tools(steps: &Vec<Step>, events: &Vec<Event>) -> (r: Turn)
    ensures
        r@ == tools_phase(crate::command::step_views(steps@), 0, events@, 0),
        r matches Turn::Go(k, _) ==> k <= events@.len(),
{
    let ghost sv = crate::command::step_views(steps@);
    let mut i: usize = 0;
    let mut k: usize = 0;
    while i < steps.len()
        invariant
            sv == crate::command::step_views(steps@),
            i <= steps@.len(),
            k <= events@.len(),
            tools_phase(sv, 0, events@, 0) == tools_phase(sv, i as int, events@, k as int),
        decreases steps.len() - i,
    {
        let s = &steps[i];
        assert(sv[i as int] == s@);
        if !is_marker(&s.program) {
            if k >= events.len() {
                let a = Action { print: Vec::new(), effect: Effect::CheckTool(text(s.program.as_str())) };
                assert(views(a.print@) =~= Seq::<Seq<char>>::empty());
                return Turn::Act(a);
            }
            match &events[k] {
                Event::ToolChecked(true) => {
                    k = k + 1;
                },
                Event::ToolChecked(false) => {
                    let mut m: Vec<char> = Vec::new();
                    if is_trash(&s.program) {
                        append_lit(&mut m, "Корзина недоступна. Объект сохранён. Для удаления без корзины явно укажите --permanent.");
                    } else {
                        append_lit(&mut m, "В окружении недоступна нужная возможность (");
                        append(&mut m, chars_of(s.program.as_str()).as_slice());
                        append_lit(&mut m, "). См. mono manual backend <command>.");
                    }
                    return failed(string_of(m.as_slice()));
                },
                _ => {
                    return mismatched();
                },
            }
        }
        i = i + 1;
    }
    let v: Vec<String> = Vec::new();
    assert(views(v@) =~= Seq::<Seq<char>>::empty());
    Turn::Go(k, v)
}

fn check_format(device: &Option<String>, events: &Vec<Event>, k: usize, pending: Vec<String>) -> (r: Turn)
    requires
        k <= events@.len(),
    ensures
        r@ == format_phase(crate::command::opt_view(*device), events@, k as int, views(pending@)),
        r matches Turn::Go(k2, _) ==> k2 <= events@.len(),
{
    match device {
        None => Turn::Go(k, pending),
        Some(d) => {
            if k >= events.len() {
                return Turn::Act(Action { print: pending, effect: Effect::ValidateFormat(text(d.as_str())) });
            }
            match &events[k] {
                Event::FormatChecked(Ok(())) => {
                    let v: Vec<String> = Vec::new();
                    assert(views(v@) =~= Seq::<Seq<char>>::empty());
                    Turn::Go(k + 1, v)
                },
                Event::FormatChecked(Err(e)) => failed(text(e.as_str())),
                _ => mismatched(),
            }
        },
    }
}

fn confirmation(plan: &Plan, events: &Vec<Event>, k: usize) -> (r: Turn)
    requires
        k <= events@.len(),
    ensures
        r@ == confirm_phase(plan@, events@, k as int),
        r matches Turn::Go(k2, _) ==> k2 <= events@.len(),
{
    if !plan.confirm {
        return Turn::Go(k, copy_strings(&plan.notes));
    }
    if k >= events.len() {
        return Turn::Act(Action { print: plan.describe(), effect: Effect::CheckTerminal });
    }
    match &events[k] {
        Event::Terminal(false) => failed(text(
            "Confirmation requires an interactive terminal. Use --dry-run to inspect the plan.",
        )),
        Event::Terminal(true) => {
            let expected = match &plan.format_device {
                Some(d) => text(d.as_str()),
                None => text("yes"),
            };
            if k + 1 >= events.len() {
                let mut m: Vec<char> = Vec::new();
                append_lit(&mut m, "Confirm by typing ");
                append(&mut m, chars_of(quoted(expected.as_str()).as_str()).as_slice());
                append_lit(&mut m, ": ");
                let a = Action { print: Vec::new(), effect: Effect::ReadConfirmation(string_of(m.as_slice())) };
                assert(views(a.print@) =~= Seq::<Seq<char>>::empty());
                return Turn::Act(a);
            }
            match &events[k + 1] {
                Event::Answered(Ok(line)) => {
                    let t = trim_of(chars_of(line.as_str()).as_slice());
                    if crate::text::same(t.as_slice(), chars_of(expected.as_str()).as_slice()) {
                        let v: Vec<String> = Vec::new();
                        assert(views(v@) =~= Seq::<Seq<char>>::empty());
                        Turn::Go(k + 2, v)
                    } else {
                        failed(text("Cancelled; no changes made"))
                    }
                },
                Event::Answered(Err(e)) => failed(text(e.as_str())),
                _ => mismatched(),
            }
        },
        _ => mismatched(),
    }
}

fn recheck(args: &Option<Vec<String>>, events: &Vec<Event>, k: usize, pending: Vec<String>) -> (r: Turn)
    requires
        k <= events@.len(),
    ensures
        r@ == recheck_phase(
            match *args {
                Some(v) => Some(views(v@)),
                None => None,
            },
            events@,
            k as int,
            views(pending@),
        ),
        r matches Turn::Go(k2, _) ==> k2 <= events@.len(),
{
    match args {
        None => Turn::Go(k, pending),
        Some(a) => {
            if k >= events.len() {
                return Turn::Act(Action { print: pending, effect: Effect::Recheck(copy_strings(a)) });
            }
            match &events[k] {
                Event::Rechecked(Ok(())) => {
                    let v: Vec<String> = Vec::new();
                    assert(views(v@) =~= Seq::<Seq<char>>::empty());
                    Turn::Go(k + 1, v)
                },
                Event::Rechecked(Err(e)) => failed(text(e.as_str())),
                _ => mismatched(),
            }
        },
    }
}

fn run_steps(steps: &Vec<Step>, events: &Vec<Event>, k0: usize, pending0: Vec<String>) -> (r: Action)
    requires
        k0 <= events@.len(),
        forall|i: int| 0 <= i < steps@.len() && #[trigger] steps@[i]@.program == create_marker() ==> steps@[i]@.args.len() > 0,
    ensures
        r@ == run_phase(crate::command::step_views(steps@), 0, events@, k0 as int, views(pending0@)),
{
    let ghost sv = crate::command::step_views(steps@);
    let mut i: usize = 0;
    let mut k: usize = k0;
    let mut pending = pending0;
    while i < steps.len()
        invariant
            sv == crate::command::step_views(steps@),
            forall|i: int| 0 <= i < steps@.len() && #[trigger] steps@[i]@.program == create_marker() ==> steps@[i]@.args.len() > 0,
            i <= steps@.len(),
            k <= events@.len(),
            run_phase(sv, 0, events@, k0 as int, views(pending0@)) == run_phase(sv, i as int, events@, k as int, views(pending@)),
        decreases steps.len() - i,
    {
        let s = &steps[i];
        assert(sv[i as int] == s@);
        if is_marker(&s.program) {
            if k >= events.len() {
                assert(s@.args.len() > 0);
                assert(s@.args[0] == s.args@[0]@);
                return Action { print: pending, effect: Effect::CreateFile(text(s.args[0].as_str())) };
            }
            match &events[k] {
                Event::Created(Ok(())) => {
                    pending = Vec::new();
                    assert(views(pending@) =~= Seq::<Seq<char>>::empty());
                },
                Event::Created(Err(e)) => {
                    return stopped(text(e.as_str()));
                },
                _ => {
                    return stopped(crate::probe::mismatch_text());
                },
            }
        } else if s.detached {
            if k >= events.len() {
                return Action {
                    print: pending,
                    effect: Effect::Spawn(text(s.program.as_str()), copy_strings(&s.args)),
                };
            }
            match &events[k] {
                Event::Started(Ok(pid)) => {
                    let mut m: Vec<char> = Vec::new();
                    append_lit(&mut m, "Started PID ");
                    append(&mut m, decimal_of(*pid as u64).as_slice());
                    append_lit(&mut m, " (application readiness not checked)");
                    pending = Vec::new();
                    let line = string_of(m.as_slice());
                    pending.push(line);
                    assert(views(pending@) =~= seq![started_line(*pid)]);
                },
                Event::Started(Err(e)) => {
                    return stopped(text(e.as_str()));
                },
                _ => {
                    return stopped(crate::probe::mismatch_text());
                },
            }
        } else {
            if k >= events.len() {
                return Action {
                    print: pending,
                    effect: Effect::Run(text(s.program.as_str()), copy_strings(&s.args)),
                };
            }
            match &events[k] {
                Event::Finished(Ok(st)) => {
                    if st.success {
                        pending = Vec::new();
                        assert(views(pending@) =~= Seq::<Seq<char>>::empty());
                    } else {
                        let mut m: Vec<char> = Vec::new();
                        if is_trash(&s.program) {
                            append_lit(&mut m, "Не удалось переместить объект в корзину. Окончательное удаление не выполнялось.");
                        } else {
                            append(&mut m, chars_of(s.program.as_str()).as_slice());
                            append_lit(&mut m, " returned ");
                            append(&mut m, chars_of(st.status.as_str()).as_slice());
                        }
                        return stopped(string_of(m.as_slice()));
                    }
                },
                Event::Finished(Err(e)) => {
                    let mut m: Vec<char> = Vec::new();
                    append(&mut m, chars_of(s.program.as_str()).as_slice());
                    append_lit(&mut m, ": ");
                    append(&mut m, chars_of(e.as_str()).as_slice());
                    return stopped(string_of(m.as_slice()));
                },
                _ => {
                    return stopped(crate::probe::mismatch_text());
                },
            }
        }
        k = k + 1;
        i = i + 1;
    }
    Action { print: pending, effect: Effect::Finish(Ok(())) }
}

/// Decides the next action of running `plan`, given the events of the
/// actions performed so far, in order. A dry run only shows the plan.
pub fn execute(plan: &Plan, dry_run: bool, events: &Vec<Event>) -> (r: Action)
    requires
        dry_run || well_formed(plan@),
    ensures
        r@ == execution(plan@, dry_run, events@),
{
    if dry_run {
        return Action { print: plan.describe(), effect: Effect::Finish(Ok(())) };
    }
    proof {
        assert forall|i: int| 0 <= i < plan.steps@.len() && #[trigger] plan.steps@[i]@.program == create_marker()
            implies plan.steps@[i]@.args.len() > 0 by {
            assert(plan@.steps[i] == plan.steps@[i]@);
        }
    }
    let k1 = match check_tools(&plan.steps, events) {
        Turn::Act(a) => return a,
        Turn::Go(k, _) => k,
    };
    let none: Vec<String> = Vec::new();
    assert(views(none@) =~= Seq::<Seq<char>>::empty());
    let k2 = match check_format(&plan.format_device, events, k1, none) {
        Turn::Act(a) => return a,
        Turn::Go(k, _) => k,
    };
    let (k3, p3) = match confirmation(plan, events, k2) {
        Turn::Act(a) => return a,
        Turn::Go(k, p) => (k, p),
    };
    let (k4, p4) = match check_format(&plan.format_device, events, k3, p3) {
        Turn::Act(a) => return a,
        Turn::Go(k, p) => (k, p),
    };
    let (k5, p5) = match recheck(&plan.delete_args, events, k4, p4) {
        Turn::Act(a) => return a,
        Turn::Go(k, p) => (k, p),
    };
    run_steps(&plan.steps, events, k5, p5)
}

} // verus!
