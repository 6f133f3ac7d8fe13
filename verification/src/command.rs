//! Execution plans: the programs a command will run, with their arguments,
//! and whether the user must confirm them first.

use vstd::prelude::*;
use crate::text::{append, append_lit, chars_of, string_of, views, lemma_views_push};

verus! {

/// One program to run, with its arguments; a detached step is started in the
/// background and not waited for.
#[derive(Debug)]
pub struct Step {
    pub program: String,
    pub args: Vec<String>,
    pub detached: bool,
}

/// The model of a step.
#[verifier::ext_equal]
pub struct StepView {
    pub program: Seq<char>,
    pub args: Seq<Seq<char>>,
    pub detached: bool,
}

impl View for Step {
    type V = StepView;

    open spec fn view(&self) -> StepView {
        StepView { program: self.program@, args: views(self.args@), detached: self.detached }
    }
}

/// What a command will do: its steps, whether it needs confirmation, the
/// device a format step targets, notes to show, a description that replaces
/// the step listing, and the arguments with which a deletion is re-planned
/// right before it runs.
#[derive(Debug)]
pub struct Plan {
    pub steps: Vec<Step>,
    pub confirm: bool,
    pub format_device: Option<String>,
    pub notes: Vec<String>,
    pub description: Option<String>,
    pub delete_args: Option<Vec<String>>,
}

/// The model of a plan.
#[verifier::ext_equal]
pub struct PlanView {
    pub steps: Seq<StepView>,
    pub confirm: bool,
    pub format_device: Option<Seq<char>>,
    pub notes: Seq<Seq<char>>,
    pub description: Option<Seq<char>>,
    pub delete_args: Option<Seq<Seq<char>>>,
}

/// The models of a sequence of steps.
pub open spec fn step_views(s: Seq<Step>) -> Seq<StepView> {
    s.map_values(|x: Step| x@)
}

/// The model of an optional string.
pub open spec fn opt_view(s: Option<String>) -> Option<Seq<char>> {
    match s {
        Some(x) => Some(x@),
        None => None,
    }
}

impl View for Plan {
    type V = PlanView;

    open spec fn view(&self) -> PlanView {
        PlanView {
            steps: step_views(self.steps@),
            confirm: self.confirm,
            format_device: opt_view(self.format_device),
            notes: views(self.notes@),
            description: opt_view(self.description),
            delete_args: match self.delete_args {
                Some(v) => Some(views(v@)),
                None => None,
            },
        }
    }
}

/// The plan that does nothing.
pub open spec fn empty_plan() -> PlanView {
    PlanView {
        steps: Seq::empty(),
        confirm: false,
        format_device: None,
        notes: Seq::empty(),
        description: None,
        delete_args: None,
    }
}

/// The step that runs `/usr/bin/<program>` with `args` and waits for it.
pub open spec fn tool(program: Seq<char>, args: Seq<Seq<char>>) -> StepView {
    StepView { program: "/usr/bin/"@ + program, args, detached: false }
}

/// The models of string slices.
pub open spec fn strs(a: Seq<&str>) -> Seq<Seq<char>> {
    a.map_values(|x: &str| x@)
}

pub proof fn lemma_step_views_push(s: Seq<Step>, x: Step)
    ensures
        step_views(s.push(x)) == step_views(s).push(x@),
{
    assert(step_views(s.push(x)) =~= step_views(s).push(x@));
}

impl Default for Plan {
    fn default() -> (r: Plan)
        ensures
            r@ == empty_plan(),
    {
        let p = Plan {
            steps: Vec::new(),
            confirm: false,
            format_device: None,
            notes: Vec::new(),
            description: None,
            delete_args: None,
        };
        assert(p@ =~= empty_plan());
        p
    }
}

/// Strings with the given texts.
pub fn strings(a: &[&str]) -> (r: Vec<String>)
    ensures
        views(r@) == strs(a@),
{
    let mut r: Vec<String> = Vec::new();
    let mut i: usize = 0;
    while i < a.len()
        invariant
            i <= a@.len(),
            views(r@) == strs(a@.take(i as int)),
        decreases a.len() - i,
    {
        let s = string_of(chars_of(a[i]).as_slice());
        proof {
            lemma_views_push(r@, s);
        }
        r.push(s);
        assert(strs(a@.take(i + 1)) =~= strs(a@.take(i as int)).push(a@[i as int]@));
        i = i + 1;
    }
    assert(a@.take(a@.len() as int) =~= a@);
    r
}

impl Plan {
    /// Adds a step that runs `/usr/bin/<program>` with `args`.
    pub fn add(&mut self, program: &str, args: &[&str])
        ensures
            final(self)@ == (PlanView { steps: old(self)@.steps.push(tool(program@, strs(args@))), ..old(self)@ }),
    {
        let mut p: Vec<char> = Vec::new();
        append_lit(&mut p, "/usr/bin/");
        append(&mut p, chars_of(program).as_slice());
        let step = Step { program: string_of(p.as_slice()), args: strings(args), detached: false };
        proof {
            lemma_step_views_push(self.steps@, step);
        }
        self.steps.push(step);
        assert(self@ =~= (PlanView { steps: old(self)@.steps.push(tool(program@, strs(args@))), ..old(self)@ }));
    }

    /// Adds a note to show with the plan.
    pub(crate) fn note(&mut self, text: &str)
        ensures
            final(self)@ == (PlanView { notes: old(self)@.notes.push(text@), ..old(self)@ }),
    {
        let s = string_of(chars_of(text).as_slice());
        proof {
            lemma_views_push(self.notes@, s);
        }
        self.notes.push(s);
        assert(self@ =~= (PlanView { notes: old(self)@.notes.push(text@), ..old(self)@ }));
    }
}


/// The `Debug` text of a list of strings, as `format!("{:?}", ..)` writes it.
pub uninterp spec fn debug_strings(v: Seq<Seq<char>>) -> Seq<char>;

/// `format!("{:?}", v)` on a list of strings: std's `Debug` rendering (each
/// string quoted and escaped, in brackets, separated by `, `). Its text
/// depends on the strings alone; no clause spells it out.
#[verifier::external_body]
pub(crate) fn debug_list(v: &Vec<String>) -> (r: String)
    ensures
        r@ == debug_strings(views(v@)),
{
    format!("{:?}", v)
}

/// The line that describes one step: its program and its argument list.
pub open spec fn step_line(s: StepView) -> Seq<char> {
    s.program + " "@ + debug_strings(s.args)
}

/// The lines that describe a plan: its description when it has one, else
/// its notes and then one line per step.
pub open spec fn plan_lines(p: PlanView) -> Seq<Seq<char>> {
    match p.description {
        Some(d) => seq![d],
        None => p.notes + p.steps.map_values(|s: StepView| step_line(s)),
    }
}

impl Plan {
    /// The lines that describe this plan.
    pub fn describe(&self) -> (r: Vec<String>)
        ensures
            views(r@) == plan_lines(self@),
    {
        let mut out: Vec<String> = Vec::new();
        if let Some(d) = &self.description {
            out.push(d.clone());
            assert(views(out@) =~= seq![d@]);
            return out;
        }
        let mut i: usize = 0;
        assert(views(out@) =~= views(self.notes@).take(0));
        while i < self.notes.len()
            invariant
                i <= self.notes@.len(),
                views(out@) == views(self.notes@).take(i as int),
            decreases self.notes.len() - i,
        {
            let n = self.notes[i].clone();
            proof {
                lemma_views_push(out@, n);
            }
            out.push(n);
            assert(views(self.notes@).take(i + 1) =~= views(self.notes@).take(i as int).push(
                self.notes@[i as int]@,
            ));
            i = i + 1;
        }
        assert(views(self.notes@).take(self.notes@.len() as int) =~= views(self.notes@));
        let ghost sv = self@.steps.map_values(|s: StepView| step_line(s));
        let mut j: usize = 0;
        assert(views(out@) =~= views(self.notes@) + sv.take(0));
        while j < self.steps.len()
            invariant
                sv == self@.steps.map_values(|s: StepView| step_line(s)),
                j <= self.steps@.len(),
                views(out@) == views(self.notes@) + sv.take(j as int),
            decreases self.steps.len() - j,
        {
            let st = &self.steps[j];
            let mut m: Vec<char> = Vec::new();
            append(&mut m, chars_of(st.program.as_str()).as_slice());
            append_lit(&mut m, " ");
            let d = debug_list(&st.args);
            append(&mut m, chars_of(d.as_str()).as_slice());
            let line = string_of(m.as_slice());
            proof {
                lemma_views_push(out@, line);
            }
            out.push(line);
            assert(sv[j as int] == step_line(self.steps@[j as int]@));
            assert(sv.take(j + 1) =~= sv.take(j as int).push(sv[j as int]));
            j = j + 1;
        }
        assert(sv.take(self.steps@.len() as int) =~= sv);
        out
    }
}

} // verus!
