//! The wizard: its steps in order, moving between them, the keys of the
//! steps that have no handler of their own, and the summary screen.

use vstd::prelude::*;

use crate::config::{
    spec_extra_variants, views, Extra, LanguageConfigView, ProjectConfig, RemoteConfigView,
};
use crate::steps::database::db_actions;
use crate::steps::languages::language_action;
use crate::steps::remotes::remote_action;
use crate::steps::vcs::vcs_actions;
use crate::steps::workflows::workflow_actions;
use crate::summary::{get_summary, lines_view, spec_summary};
use crate::text::{append, concat, extend_strings, join, joined, str_eq};
use crate::seqs::toggled;
use crate::steps::database::{config_languages, DatabaseHandler};
use crate::steps::languages::LanguagesHandler;
use crate::steps::project_type::{
    project_actions, reopen_action, PathFacts, ProjectTypeHandler, PtAction,
};
use crate::steps::remotes::RemotesHandler;
use crate::steps::vcs::VcsHandler;
use crate::steps::workflows::WorkflowsHandler;
use crate::steps::{Focus, Key, StepResult, CURSOR_BLANK, CURSOR_MARKER};

verus! {

/// The wizard's steps, in order.
#[derive(Debug, Clone, Copy, PartialEq, Eq, Structural)]
pub enum WizardStep {
    ProjectType,
    Vcs,
    Languages,
    Workflows,
    Database,
    Remotes,
    Extras,
    Summary,
}

/// Every step, in order.
pub open spec fn spec_steps() -> Seq<WizardStep> {
    seq![
        WizardStep::ProjectType,
        WizardStep::Vcs,
        WizardStep::Languages,
        WizardStep::Workflows,
        WizardStep::Database,
        WizardStep::Remotes,
        WizardStep::Extras,
        WizardStep::Summary,
    ]
}

impl WizardStep {
    /// Every step, in order.
    pub fn variants() -> (r: Vec<WizardStep>)
        ensures
            r@ == spec_steps(),
    {
        let r = vec![
            WizardStep::ProjectType,
            WizardStep::Vcs,
            WizardStep::Languages,
            WizardStep::Workflows,
            WizardStep::Database,
            WizardStep::Remotes,
            WizardStep::Extras,
            WizardStep::Summary,
        ];
        assert(r@ =~= spec_steps());
        r
    }

    /// The number of steps.
    pub fn count() -> (r: usize)
        ensures
            r == spec_steps().len(),
    {
        8
    }

    /// The step at position `i`.
    pub fn at(i: usize) -> (r: WizardStep)
        requires
            i < spec_steps().len(),
        ensures
            r == spec_steps()[i as int],
    {
        match i {
            0 => WizardStep::ProjectType,
            1 => WizardStep::Vcs,
            2 => WizardStep::Languages,
            3 => WizardStep::Workflows,
            4 => WizardStep::Database,
            5 => WizardStep::Remotes,
            6 => WizardStep::Extras,
            _ => WizardStep::Summary,
        }
    }

    /// Title shown in the wizard's frame.
    pub open spec fn spec_label(self) -> Seq<char> {
        match self {
            WizardStep::ProjectType => "Project Type"@,
            WizardStep::Vcs => "Version Control System"@,
            WizardStep::Languages => "Languages"@,
            WizardStep::Workflows => "Workflows"@,
            WizardStep::Database => "Database"@,
            WizardStep::Remotes => "Remotes"@,
            WizardStep::Extras => "Extras"@,
            WizardStep::Summary => "Summary"@,
        }
    }

    /// Title shown in the wizard's frame.
    pub fn label(&self) -> (r: &'static str)
        ensures
            r@ == self.spec_label(),
    {
        match self {
            WizardStep::ProjectType => "Project Type",
            WizardStep::Vcs => "Version Control System",
            WizardStep::Languages => "Languages",
            WizardStep::Workflows => "Workflows",
            WizardStep::Database => "Database",
            WizardStep::Remotes => "Remotes",
            WizardStep::Extras => "Extras",
            WizardStep::Summary => "Summary",
        }
    }

    /// How many options the step lists: the project types, version-control
    /// systems, languages, databases (with "None"), remote providers or
    /// extras; none for Workflows and Summary.
    pub open spec fn spec_option_count(self) -> nat {
        match self {
            WizardStep::ProjectType => 2,
            WizardStep::Vcs => 3,
            WizardStep::Languages => 12,
            WizardStep::Workflows => 0,
            WizardStep::Database => 6,
            WizardStep::Remotes => 5,
            WizardStep::Extras => 3,
            WizardStep::Summary => 0,
        }
    }

    /// How many options the step lists (see
    /// [`WizardStep::spec_option_count`]).
    pub fn option_count(&self) -> (r: usize)
        ensures
            r == self.spec_option_count(),
    {
        match self {
            WizardStep::ProjectType => 2,
            WizardStep::Vcs => 3,
            WizardStep::Languages => 12,
            WizardStep::Workflows => 0,
            WizardStep::Database => 6,
            WizardStep::Remotes => 5,
            WizardStep::Extras => 3,
            WizardStep::Summary => 0,
        }
    }
}

/// The extra at position `i`.
pub fn extra_at(i: usize) -> (r: Extra)
    requires
        i < 3,
    ensures
        r == spec_extra_variants()[i as int],
{
    match i {
        0 => Extra::Gitignore,
        1 => Extra::Readme,
        _ => Extra::License,
    }
}

/// The wizard's state: the step shown, the configuration being filled in,
/// and the handlers of the steps that have one.
#[derive(Debug)]
pub struct Wizard {
    pub step_index: usize,
    /// Cursor of the steps without a handler (Extras, Summary).
    pub cursor: usize,
    pub config: ProjectConfig,
    /// Extras ticked on the Extras step, committed on leaving it forward.
    pub selected_extras: Vec<Extra>,
    /// The user confirmed the summary.
    pub confirmed: bool,
    /// The wizard is over (confirmed or quit).
    pub exit: bool,
    pub project_type_handler: ProjectTypeHandler,
    pub vcs_handler: VcsHandler,
    pub languages_handler: LanguagesHandler,
    pub workflows_handler: WorkflowsHandler,
    pub database_handler: DatabaseHandler,
    pub remotes_handler: RemotesHandler,
}

impl Wizard {
    /// The step shown.
    pub open spec fn step(self) -> WizardStep {
        spec_steps()[self.step_index as int]
    }

    /// The state the wizard keeps: the step exists, every handler keeps its
    /// own invariant, the database handler fits the languages configured
    /// while its step is shown, and the Extras cursor is on an extra.
    pub open spec fn wf(self) -> bool {
        &&& self.step_index < 8
        &&& self.project_type_handler.wf()
        &&& self.vcs_handler.wf()
        &&& self.languages_handler.wf()
        &&& self.workflows_handler.wf()
        &&& self.database_handler.wf()
        &&& self.remotes_handler.wf()
        &&& self.step() == WizardStep::Database ==> self.database_handler.wf_for(
            config_languages(self.config),
        )
        &&& self.step() == WizardStep::Extras ==> self.cursor < 3
    }

    /// What arriving on the current step does: its handler is restored from
    /// the configuration; Extras takes over the configured extras with the
    /// cursor at the top; Summary puts the cursor at the top.
    pub open spec fn restored_for(self, n: Wizard) -> bool {
        match self.step() {
            WizardStep::ProjectType => n == (Wizard { project_type_handler: n.project_type_handler, ..self })
                && self.project_type_handler.restored(n.project_type_handler, self.config),
            WizardStep::Vcs => n == (Wizard { vcs_handler: n.vcs_handler, ..self })
                && self.vcs_handler.restored(n.vcs_handler, self.config),
            WizardStep::Languages => n == (Wizard { languages_handler: n.languages_handler, ..self })
                && self.languages_handler.restored(n.languages_handler, self.config),
            WizardStep::Workflows => n == (Wizard { workflows_handler: n.workflows_handler, ..self })
                && self.workflows_handler.restored(n.workflows_handler, self.config),
            WizardStep::Database => n == (Wizard { database_handler: n.database_handler, ..self })
                && self.database_handler.restored(n.database_handler, self.config),
            WizardStep::Remotes => n == (Wizard { remotes_handler: n.remotes_handler, ..self })
                && self.remotes_handler.restored(n.remotes_handler, self.config),
            WizardStep::Extras => n.selected_extras@ == self.config.extras@ && n == (Wizard {
                selected_extras: n.selected_extras,
                cursor: 0,
                ..self
            }),
            WizardStep::Summary => n == (Wizard { cursor: 0, ..self }),
        }
    }

    /// What the caller has to do after arriving on the current step: check
    /// the paths when the project-type step reopened a choice.
    pub open spec fn arrival(self) -> PtAction {
        if self.step() == WizardStep::ProjectType {
            reopen_action(self.config)
        } else {
            PtAction::Nothing
        }
    }

    /// What the caller has to do after moving one step back (see
    /// [`Wizard::arrival`]).
    pub open spec fn back_action(self) -> PtAction {
        if self.step_index == 1 {
            reopen_action(self.config)
        } else {
            PtAction::Nothing
        }
    }

    /// Moving one step forward (nothing past the last step).
    pub open spec fn advanced(self, n: Wizard) -> bool {
        if self.step_index + 1 < 8 {
            (Wizard { step_index: (self.step_index + 1) as usize, ..self }).restored_for(n)
        } else {
            n == self
        }
    }

    /// Moving one step back (nothing before the first step).
    pub open spec fn went_back(self, n: Wizard) -> bool {
        if self.step_index > 0 {
            (Wizard { step_index: (self.step_index - 1) as usize, ..self }).restored_for(n)
        } else {
            n == self
        }
    }

    /// The step shown.
    pub fn current_step(&self) -> (r: WizardStep)
        requires
            self.step_index < 8,
        ensures
            r == self.step(),
    {
        WizardStep::at(self.step_index)
    }

    /// Prepares the step just arrived on (see [`Wizard::restored_for`]);
    /// the result tells the caller what to do next (see
    /// [`Wizard::arrival`]).
    pub fn restore_cursor(&mut self) -> (a: PtAction)
        requires
            old(self).wf_nav(),
        ensures
            old(self).restored_for(*final(self)),
            a == old(self).arrival(),
            final(self).wf(),
    {
        match self.current_step() {
            WizardStep::ProjectType => {
                return self.project_type_handler.restore_from_config(&self.config);
            },
            WizardStep::Vcs => {
                self.vcs_handler.restore_from_config(&self.config);
            },
            WizardStep::Languages => {
                self.languages_handler.restore_from_config(&self.config);
            },
            WizardStep::Workflows => {
                self.workflows_handler.restore_from_config(&self.config);
            },
            WizardStep::Database => {
                self.database_handler.restore_from_config(&self.config);
            },
            WizardStep::Remotes => {
                self.remotes_handler.restore_from_config(&self.config);
            },
            WizardStep::Extras => {
                self.selected_extras = copy_extras(&self.config.extras);
                self.cursor = 0;
            },
            WizardStep::Summary => {
                self.cursor = 0;
            },
        }
        PtAction::Nothing
    }

    /// The wizard's invariant, except for what arriving on the current step
    /// re-establishes (the database handler's fit and the Extras cursor).
    pub open spec fn wf_nav(self) -> bool {
        &&& self.step_index < 8
        &&& self.project_type_handler.wf()
        &&& self.vcs_handler.wf()
        &&& self.languages_handler.wf()
        &&& self.workflows_handler.wf()
        &&& self.database_handler.wf()
        &&& self.remotes_handler.wf()
        &&& self.step() == WizardStep::ProjectType ==> self.wf()
    }

    /// Moves one step forward (see [`Wizard::advanced`]).
    pub fn next(&mut self)
        requires
            old(self).wf_nav(),
            old(self).step_index < 8,
        ensures
            old(self).advanced(*final(self)),
            old(self).step_index + 1 < 8 ==> final(self).wf(),
            old(self).step_index + 1 >= 8 ==> *final(self) == *old(self),
    {
        if self.step_index + 1 < 8 {
            self.step_index = self.step_index + 1;
            self.restore_cursor();
        }
    }

    /// Moves one step back (see [`Wizard::went_back`]); the result tells
    /// the caller what to do next (see [`Wizard::back_action`]).
    pub fn prev(&mut self) -> (a: PtAction)
        requires
            old(self).wf_nav(),
        ensures
            old(self).went_back(*final(self)),
            a == old(self).back_action(),
            old(self).step_index > 0 ==> final(self).wf(),
            old(self).step_index == 0 ==> *final(self) == *old(self),
    {
        if self.step_index > 0 {
            self.step_index = self.step_index - 1;
            self.restore_cursor()
        } else {
            PtAction::Nothing
        }
    }

    /// Moves the cursor down within the step's options.
    pub fn cursor_down(&mut self)
        requires
            old(self).step_index < 8,
        ensures
            *final(self) == (Wizard {
                cursor: if old(self).cursor + 1 < old(self).step().spec_option_count() {
                    (old(self).cursor + 1) as usize
                } else {
                    old(self).cursor
                },
                ..*old(self)
            }),
    {
        let count = self.current_step().option_count();
        if self.cursor < count && self.cursor + 1 < count {
            self.cursor = self.cursor + 1;
        }
    }

    /// Moves the cursor up, stopping at the top.
    pub fn cursor_up(&mut self)
        ensures
            *final(self) == (Wizard {
                cursor: if old(self).cursor > 0 {
                    (old(self).cursor - 1) as usize
                } else {
                    0
                },
                ..*old(self)
            }),
    {
        if self.cursor > 0 {
            self.cursor = self.cursor - 1;
        }
    }

    /// Enter/Space on a step without a handler: on Extras ticks or unticks
    /// the extra under the cursor; on Summary confirms and ends the wizard;
    /// elsewhere nothing.
    pub open spec fn selected(self, n: Wizard) -> bool {
        match self.step() {
            WizardStep::Extras => n.selected_extras@ == toggled(
                self.selected_extras@,
                spec_extra_variants()[self.cursor as int],
            ) && n == (Wizard { selected_extras: n.selected_extras, ..self }),
            WizardStep::Summary => n == (Wizard { confirmed: true, exit: true, ..self }),
            _ => n == self,
        }
    }

    /// Enter/Space on a step without a handler (see [`Wizard::selected`]).
    pub fn select(&mut self)
        requires
            old(self).wf(),
        ensures
            old(self).selected(*final(self)),
            final(self).wf(),
    {
        match self.current_step() {
            WizardStep::Extras => {
                let extra = extra_at(self.cursor);
                toggle_extra(&mut self.selected_extras, extra);
            },
            WizardStep::Summary => {
                self.confirmed = true;
                self.exit = true;
            },
            _ => {},
        }
    }

    /// Right/l on a step without a handler: on Extras the ticked extras are
    /// committed and the wizard moves forward; elsewhere nothing.
    pub open spec fn selected_or_next(self, n: Wizard) -> bool {
        if self.step() == WizardStep::Extras {
            exists|m: Wizard|
                {
                    &&& m.config.extras@ == self.selected_extras@
                    &&& m.selected_extras@.len() == 0
                    &&& m.config == (ProjectConfig { extras: m.config.extras, ..self.config })
                    &&& m == (Wizard { config: m.config, selected_extras: m.selected_extras, ..self })
                    &&& #[trigger] m.advanced(n)
                }
        } else {
            n == self
        }
    }

    /// Right/l on a step without a handler (see [`Wizard::selected_or_next`]).
    pub fn select_or_next(&mut self)
        requires
            old(self).wf(),
        ensures
            old(self).selected_or_next(*final(self)),
            final(self).wf(),
    {
        if self.current_step() == WizardStep::Extras {
            let taken = copy_extras(&self.selected_extras);
            self.selected_extras = Vec::new();
            self.config.extras = taken;
            let ghost m = *self;
            self.next();
            assert(m.advanced(*self));
        }
    }
}

/// A copy of a list of extras.
pub fn copy_extras(v: &Vec<Extra>) -> (r: Vec<Extra>)
    ensures
        r@ == v@,
{
    let mut r: Vec<Extra> = Vec::new();
    let mut i: usize = 0;
    while i < v.len()
        invariant
            i <= v.len(),
            r@ == v@.take(i as int),
        decreases v.len() - i,
    {
        r.push(v[i]);
        i = i + 1;
        assert(r@ =~= v@.take(i as int));
    }
    assert(v@.take(i as int) =~= v@);
    r
}

/// Removes the first `e` from `v`, or appends `e` when it is absent.
pub fn toggle_extra(v: &mut Vec<Extra>, e: Extra)
    ensures
        final(v)@ == toggled(old(v)@, e),
{
    let ghost s = v@;
    let mut i: usize = 0;
    while i < v.len()
        invariant
            i <= v.len(),
            s == v@,
            *v == *old(v),
            forall|j: int| 0 <= j < i ==> !crate::seqs::eq_to(e)(#[trigger] s[j]),
        decreases v.len() - i,
    {
        if v[i] == e {
            assert(crate::seqs::eq_to(e)(s[i as int]));
            proof {
                crate::seqs::lemma_first_index_found(s, crate::seqs::eq_to(e), i as int);
            }
            v.remove(i);
            return;
        }
        assert(!crate::seqs::eq_to(e)(s[i as int]));
        i = i + 1;
    }
    proof {
        crate::seqs::lemma_first_index_absent(s, crate::seqs::eq_to(e));
    }
    v.push(e);
}

impl Wizard {
    /// What a handler's outcome does to the wizard: Done moves forward,
    /// Back moves back, Quit ends the wizard, Continue changes nothing more.
    pub open spec fn applied(self, n: Wizard, r: StepResult) -> bool {
        match r {
            StepResult::Done => self.advanced(n),
            StepResult::Back => self.went_back(n),
            StepResult::Quit => n == (Wizard { exit: true, ..self }),
            StepResult::Continue => n == self,
        }
    }

    /// What the caller has to do after a handler's outcome `r` was acted on:
    /// after moving back, see [`Wizard::back_action`].
    pub open spec fn applied_action(self, r: StepResult) -> PtAction {
        if r == StepResult::Back {
            self.back_action()
        } else {
            PtAction::Nothing
        }
    }

    /// Acts on a handler's outcome (see [`Wizard::applied`]); the result
    /// tells the caller what to do next (see [`Wizard::applied_action`]).
    pub fn apply_result(&mut self, r: StepResult) -> (a: PtAction)
        requires
            old(self).wf_nav(),
        ensures
            old(self).applied(*final(self), r),
            a == old(self).applied_action(r),
            (r == StepResult::Done && old(self).step_index + 1 < 8) ==> final(self).wf(),
            (r == StepResult::Back && old(self).step_index > 0) ==> final(self).wf(),
    {
        match r {
            StepResult::Done => {
                self.next();
                PtAction::Nothing
            },
            StepResult::Back => self.prev(),
            StepResult::Quit => {
                self.exit = true;
                PtAction::Nothing
            },
            StepResult::Continue => PtAction::Nothing,
        }
    }

    /// A key handled by the current step's handler: `m` is the wizard right
    /// after the handler (and the configuration) took the key, with outcome
    /// `r`, as that handler's `handle_input` describes.
    pub open spec fn outcome(self, m: Wizard, key: Key, r: StepResult) -> bool {
        match self.step() {
            WizardStep::Vcs => {
                let h = self.vcs_handler;
                &&& m == (Wizard { vcs_handler: m.vcs_handler, config: m.config, ..self })
                &&& h.focus == Focus::Choice ==> h.choice_step(m.vcs_handler, self.config, m.config, key, r)
                &&& h.focus is SubField ==> h.subfield_step(
                    m.vcs_handler,
                    self.config,
                    m.config,
                    key,
                    r,
                )
            },
            WizardStep::Languages => {
                let h = self.languages_handler;
                &&& m == (Wizard { languages_handler: m.languages_handler, config: m.config, ..self })
                &&& h.focus == Focus::Choice ==> h.choice_step(
                    m.languages_handler,
                    self.config,
                    m.config,
                    key,
                    r,
                )
                &&& h.focus is SubField ==> m.config == self.config && if h.expanded is Some {
                    h.subfield_step(m.languages_handler, key, r)
                } else {
                    r == StepResult::Continue && m.languages_handler == h
                }
                &&& h.focus == Focus::Browsing ==> r == StepResult::Continue && m == self
            },
            WizardStep::Workflows => {
                &&& m == (Wizard { workflows_handler: m.workflows_handler, config: m.config, ..self })
                &&& self.workflows_handler.step(m.workflows_handler, self.config, m.config, key, r)
            },
            WizardStep::Database => {
                &&& m == (Wizard { database_handler: m.database_handler, config: m.config, ..self })
                &&& exists|d: DatabaseHandler|
                    {
                        &&& d.upstream_languages@ == config_languages(self.config)
                        &&& d == (DatabaseHandler {
                            upstream_languages: d.upstream_languages,
                            ..self.database_handler
                        })
                        &&& #[trigger] d.key_step(m.database_handler, self.config, m.config, key, r)
                    }
            },
            WizardStep::Remotes => {
                let h = self.remotes_handler;
                &&& m == (Wizard { remotes_handler: m.remotes_handler, config: m.config, ..self })
                &&& h.focus == Focus::Choice ==> h.choice_step(
                    m.remotes_handler,
                    self.config,
                    m.config,
                    key,
                    r,
                )
                &&& h.focus is SubField ==> m.config == self.config && h.subfield_step(
                    m.remotes_handler,
                    key,
                    r,
                )
                &&& h.focus == Focus::Browsing ==> r == StepResult::Continue && m == self
            },
            _ => m == self && r == StepResult::Continue,
        }
    }

    /// A key handled by the project-type step's handler, given what the file
    /// system says about its paths: `m` is the wizard right after the
    /// handler (and the configuration) took the key, with outcome `r` and
    /// request `a` to the caller, as that handler's `handle_input`
    /// describes.
    pub open spec fn project_type_outcome(
        self,
        m: Wizard,
        key: Key,
        facts: PathFacts,
        r: StepResult,
        a: PtAction,
    ) -> bool {
        let h = self.project_type_handler;
        &&& m == (Wizard { project_type_handler: m.project_type_handler, config: m.config, ..self })
        &&& h.focus == Focus::Choice ==> m.config == self.config && h.choice_step(
            m.project_type_handler,
            key,
            r,
            a,
        )
        &&& h.focus is SubField ==> h.subfield_step(
            m.project_type_handler,
            self.config,
            m.config,
            key,
            facts,
            r,
            a,
        )
        &&& h.focus == Focus::Browsing ==> r == StepResult::Continue && a == PtAction::Nothing && m
            == self
    }

    /// Keys of the steps without a handler (Extras, Summary): q quits;
    /// Right/l commits and moves forward (see [`Wizard::selected_or_next`]);
    /// Left/h moves back; Down/j and Up/k move the cursor; Enter/Space
    /// select (see [`Wizard::selected`]).
    pub open spec fn inline_key(self, n: Wizard, key: Key) -> bool {
        if key == Key::Char('q') {
            n == (Wizard { exit: true, ..self })
        } else if key == Key::Right || key == Key::Char('l') {
            self.selected_or_next(n)
        } else if key == Key::Left || key == Key::Char('h') {
            self.went_back(n)
        } else if key == Key::Down || key == Key::Char('j') {
            n == (Wizard {
                cursor: if self.cursor + 1 < self.step().spec_option_count() {
                    (self.cursor + 1) as usize
                } else {
                    self.cursor
                },
                ..self
            })
        } else if key == Key::Up || key == Key::Char('k') {
            n == (Wizard {
                cursor: if self.cursor > 0 {
                    (self.cursor - 1) as usize
                } else {
                    0
                },
                ..self
            })
        } else if key == Key::Enter || key == Key::Char(' ') {
            self.selected(n)
        } else {
            n == self
        }
    }

    /// What a key does, given what the file system says about the
    /// project-type step's paths: Shift+Left and Shift+Right move back and
    /// forward whatever the step; otherwise the current step's handler takes
    /// it and its outcome is acted on, or, on Extras and Summary, see
    /// [`Wizard::inline_key`]. `a` is what the caller has to do next: what
    /// the project-type handler asks for, or, after moving back onto that
    /// step, see [`Wizard::back_action`].
    pub open spec fn key_step(self, n: Wizard, key: Key, shift: bool, facts: PathFacts, a: PtAction) -> bool {
        if shift && key == Key::Left {
            self.went_back(n) && a == self.back_action()
        } else if shift && key == Key::Right {
            self.advanced(n) && a == PtAction::Nothing
        } else {
            match self.step() {
                WizardStep::ProjectType => exists|m: Wizard, r: StepResult|
                    #[trigger] self.project_type_outcome(m, key, facts, r, a) && m.applied(n, r),
                WizardStep::Extras | WizardStep::Summary => self.inline_key(n, key) && a
                    == PtAction::Nothing,
                _ => exists|m: Wizard, r: StepResult|
                    #[trigger] self.outcome(m, key, r) && m.applied(n, r) && a == m.applied_action(r),
            }
        }
    }

    /// What the current step's handler needs of a key so as not to fail:
    /// room in the text being typed into, and room to add a remote.
    pub open spec fn key_ok(self, key: Key, shift: bool) -> bool {
        (shift && (key == Key::Left || key == Key::Right)) || match self.step() {
            WizardStep::ProjectType => self.project_type_handler.name_input.text().len() < usize::MAX
                && self.project_type_handler.location_input.text().len() < usize::MAX,
            WizardStep::Vcs => self.vcs_handler.default_branch_input.text().len() < usize::MAX,
            WizardStep::Languages => self.languages_handler.custom_deps_input.text().len()
                < usize::MAX,
            WizardStep::Database => self.database_handler.port_input.text().len() < usize::MAX,
            WizardStep::Remotes => {
                &&& self.remotes_handler.configured@.len() + 8 <= usize::MAX
                &&& self.remotes_handler.name_input.text().len() < usize::MAX
                &&& self.remotes_handler.location_input.text().len() < usize::MAX
            },
            _ => true,
        }
    }

    /// Tells whether [`Wizard::handle_key`] may be given `key` (see
    /// [`Wizard::key_ok`]): the caller tests it first.
    pub fn accepts_key(&self, key: Key, shift: bool) -> (r: bool)
        requires
            self.step_index < 8,
        ensures
            r == self.key_ok(key, shift),
    {
        if shift && (key == Key::Left || key == Key::Right) {
            return true;
        }
        match self.current_step() {
            WizardStep::ProjectType => self.project_type_handler.name_input.char_count() < usize::MAX
                && self.project_type_handler.location_input.char_count() < usize::MAX,
            WizardStep::Vcs => self.vcs_handler.default_branch_input.char_count() < usize::MAX,
            WizardStep::Languages => self.languages_handler.custom_deps_input.char_count() < usize::MAX,
            WizardStep::Database => self.database_handler.port_input.char_count() < usize::MAX,
            WizardStep::Remotes => {
                self.remotes_handler.configured.len() <= usize::MAX - 8
                    && self.remotes_handler.name_input.char_count() < usize::MAX
                    && self.remotes_handler.location_input.char_count() < usize::MAX
            },
            _ => true,
        }
    }

    fn handler_key(&mut self, key: Key) -> (r: StepResult)
        requires
            old(self).wf(),
            old(self).key_ok(key, false),
        ensures
            old(self).outcome(*final(self), key, r),
            final(self).wf_nav(),
            final(self).step() == WizardStep::Database ==> final(self).database_handler.wf_for(
                config_languages(final(self).config),
            ),
            final(self).step() == WizardStep::Extras ==> final(self).cursor < 3,
    {
        match self.current_step() {
            WizardStep::Vcs => self.vcs_key(key),
            WizardStep::Languages => self.languages_key(key),
            WizardStep::Workflows => self.workflows_key(key),
            WizardStep::Database => self.database_key(key),
            WizardStep::Remotes => self.remotes_key(key),
            _ => StepResult::Continue,
        }
    }

    fn vcs_key(&mut self, key: Key) -> (r: StepResult)
        requires
            old(self).wf(),
            old(self).step() == WizardStep::Vcs,
            old(self).key_ok(key, false),
        ensures
            old(self).outcome(*final(self), key, r),
            final(self).wf(),
    {
        self.vcs_handler.handle_input(key, &mut self.config)
    }

    fn languages_key(&mut self, key: Key) -> (r: StepResult)
        requires
            old(self).wf(),
            old(self).step() == WizardStep::Languages,
            old(self).key_ok(key, false),
        ensures
            old(self).outcome(*final(self), key, r),
            final(self).wf(),
    {
        self.languages_handler.handle_input(key, &mut self.config)
    }

    fn workflows_key(&mut self, key: Key) -> (r: StepResult)
        requires
            old(self).wf(),
            old(self).step() == WizardStep::Workflows,
        ensures
            old(self).outcome(*final(self), key, r),
            final(self).wf(),
    {
        self.workflows_handler.handle_input(key, &mut self.config)
    }

    #[verifier::rlimit(40)]
    fn database_key(&mut self, key: Key) -> (r: StepResult)
        requires
            old(self).wf(),
            old(self).step() == WizardStep::Database,
            old(self).key_ok(key, false),
        ensures
            old(self).outcome(*final(self), key, r),
            final(self).wf(),
    {
        self.database_handler.refresh_upstream(&self.config);
        let ghost d = self.database_handler;
        let r = self.database_handler.handle_key(key, &mut self.config);
        assert(d.key_step(self.database_handler, old(self).config, self.config, key, r));
        assert(self.config.language_configs == old(self).config.language_configs);
        assert(self.database_handler.upstream_languages == d.upstream_languages);
        r
    }

    fn remotes_key(&mut self, key: Key) -> (r: StepResult)
        requires
            old(self).wf(),
            old(self).step() == WizardStep::Remotes,
            old(self).key_ok(key, false),
        ensures
            old(self).outcome(*final(self), key, r),
            final(self).wf(),
    {
        self.remotes_handler.handle_input(key, &mut self.config)
    }

    fn project_type_key(&mut self, key: Key, facts: PathFacts) -> (r: (StepResult, PtAction))
        requires
            old(self).wf(),
            old(self).step() == WizardStep::ProjectType,
            old(self).key_ok(key, false),
        ensures
            old(self).project_type_outcome(*final(self), key, facts, r.0, r.1),
            final(self).wf(),
    {
        self.project_type_handler.handle_input(key, &mut self.config, facts)
    }

    /// Handles one key press (see [`Wizard::key_step`]), given what the
    /// file system says about the project-type step's paths; `shift` tells
    /// whether Shift was held. The result tells the caller what to do next
    /// for the project-type step. The wizard's invariant is kept.
    pub fn handle_key(&mut self, key: Key, shift: bool, facts: PathFacts) -> (a: PtAction)
        requires
            old(self).wf(),
            old(self).key_ok(key, shift),
        ensures
            old(self).key_step(*final(self), key, shift, facts, a),
            final(self).wf(),
    {
        if shift && key == Key::Left {
            return self.prev();
        }
        if shift && key == Key::Right {
            self.next();
            return PtAction::Nothing;
        }
        match self.current_step() {
            WizardStep::ProjectType => {
                let ghost o = *self;
                let (r, a) = self.project_type_key(key, facts);
                let ghost m = *self;
                self.apply_result(r);
                assert(o.project_type_outcome(m, key, facts, r, a) && m.applied(*self, r));
                a
            },
            WizardStep::Extras | WizardStep::Summary => {
                if key == Key::Char('q') {
                    self.exit = true;
                } else if key == Key::Right || key == Key::Char('l') {
                    self.select_or_next();
                } else if key == Key::Left || key == Key::Char('h') {
                    self.prev();
                } else if key == Key::Down || key == Key::Char('j') {
                    self.cursor_down();
                } else if key == Key::Up || key == Key::Char('k') {
                    self.cursor_up();
                } else if key == Key::Enter || key == Key::Char(' ') {
                    self.select();
                }
                PtAction::Nothing
            },
            _ => {
                let ghost o = *self;
                let r = self.handler_key(key);
                let ghost m = *self;
                let a = self.apply_result(r);
                assert(o.outcome(m, key, r) && m.applied(*self, r) && a == m.applied_action(r));
                a
            },
        }
    }
}

/// The summary screen: a heading, the configuration summary, the planned
/// actions (when there are any) as bullets under their own heading, and the
/// confirmation prompt.
pub open spec fn summary_screen(c: ProjectConfig, actions: Seq<Seq<char>>) -> Seq<Seq<char>> {
    seq!["Review your selections:\n"@] + spec_summary(c) + (if actions.len() > 0 {
        seq![""@, "Planned actions:"@] + actions.map_values(|a: Seq<char>| "  • "@ + a)
    } else {
        Seq::empty()
    }) + seq![""@, "Press Enter to confirm."@]
}

/// The planned actions of every step, in step order.
pub open spec fn all_actions(c: ProjectConfig) -> Seq<Seq<char>> {
    project_actions(c) + vcs_actions(c.vcs, c.default_branch@, c.jj_colocate) + views(
        c.language_configs@,
    ).map_values(|l: LanguageConfigView| language_action(l)) + workflow_actions(
        c.workflows,
        views(c.language_configs@),
    ) + db_actions(views(c.database_configs@)) + views(c.remotes@).map_values(
        |x: RemoteConfigView| remote_action(x),
    )
}

/// One line of a multi-select list: the cursor marker on the cursor's row,
/// a tick box, the label.
pub open spec fn multi_select_line(label: Seq<char>, checked: bool, on_cursor: bool) -> Seq<char> {
    (if on_cursor {
        CURSOR_MARKER@
    } else {
        CURSOR_BLANK@
    }) + (if checked {
        "[x]"@
    } else {
        "[ ]"@
    }) + " "@ + label
}

impl Wizard {
    /// The summary lines of the configuration (see [`spec_summary`]).
    pub fn get_summary(&self) -> (r: Vec<String>)
        ensures
            lines_view(r@) == spec_summary(self.config),
    {
        get_summary(&self.config)
    }

    /// The configuration panel: the summary lines, one per line.
    pub fn config_summary(&self) -> (r: String)
        ensures
            r@ == joined(spec_summary(self.config), "\n"@),
    {
        let lines = get_summary(&self.config);
        join(&lines, "\n")
    }

    /// What is printed once the wizard is confirmed: a title line, then the
    /// summary lines.
    pub fn final_summary(&self) -> (r: String)
        ensures
            r@ == "cinderbox — Project Configuration\n"@ + joined(spec_summary(self.config), "\n"@),
    {
        let lines = get_summary(&self.config);
        let body = join(&lines, "\n");
        concat("cinderbox — Project Configuration\n", body.as_str())
    }

    /// The summary screen's text (see [`summary_screen`] and
    /// [`all_actions`]).
    pub fn summary_content(&self) -> (r: String)
        ensures
            r@ == joined(summary_screen(self.config, all_actions(self.config)), "\n"@),
    {
        let mut lines: Vec<String> = Vec::new();
        proof {
            reveal_strlit("Review your selections:\n");
        }
        push_text(&mut lines, String::from_str("Review your selections:\n"));
        let summary = get_summary(&self.config);
        extend_strings(&mut lines, &summary);
        let mut actions: Vec<String> = Vec::new();
        let a = self.project_type_handler.planned_actions(&self.config);
        extend_strings(&mut actions, &a);
        let a = self.vcs_handler.planned_actions(&self.config);
        extend_strings(&mut actions, &a);
        let a = self.languages_handler.planned_actions(&self.config);
        extend_strings(&mut actions, &a);
        let a = self.workflows_handler.planned_actions(&self.config);
        extend_strings(&mut actions, &a);
        let a = self.database_handler.planned_actions(&self.config);
        extend_strings(&mut actions, &a);
        let a = self.remotes_handler.planned_actions(&self.config);
        extend_strings(&mut actions, &a);
        let ghost want = all_actions(self.config);
        assert(lines_view(actions@) =~= want);
        let ghost head = lines_view(lines@);
        assert(head =~= seq!["Review your selections:\n"@] + spec_summary(self.config));
        if actions.len() > 0 {
            proof {
                reveal_strlit("");
                reveal_strlit("Planned actions:");
            }
            let blank = String::new();
            push_text(&mut lines, blank);
            assert(lines_view(lines@) =~= head.push(Seq::<char>::empty()));
            let title = String::from_str("Planned actions:");
            push_text(&mut lines, title);
            assert(lines_view(lines@) =~= head.push(Seq::<char>::empty()).push("Planned actions:"@));
            assert(""@ =~= Seq::<char>::empty());
            let ghost mid = lines_view(lines@);
            assert(mid =~= head + seq![""@, "Planned actions:"@]);
            let mut i: usize = 0;
            while i < actions.len()
                invariant
                    i <= actions.len(),
                    lines_view(actions@) == want,
                    lines_view(lines@) == mid + want.map_values(|a: Seq<char>| "  • "@ + a).take(
                        i as int,
                    ),
                decreases actions.len() - i,
            {
                push_text(&mut lines, concat("  • ", actions[i].as_str()));
                i = i + 1;
                assert(lines_view(lines@) =~= mid + want.map_values(|a: Seq<char>| "  • "@ + a).take(
                    i as int,
                ));
            }
            assert(want.map_values(|a: Seq<char>| "  • "@ + a).take(i as int) =~= want.map_values(
                |a: Seq<char>| "  • "@ + a,
            ));
            assert(lines_view(lines@) =~= head + seq![""@, "Planned actions:"@] + want.map_values(
                |a: Seq<char>| "  • "@ + a,
            ));
        } else {
            assert(want.len() == 0);
        }
        let ghost body = lines_view(lines@);
        assert(body =~= head + (if want.len() > 0 {
            seq![""@, "Planned actions:"@] + want.map_values(|a: Seq<char>| "  • "@ + a)
        } else {
            Seq::empty()
        }));
        proof {
            reveal_strlit("");
            reveal_strlit("Press Enter to confirm.");
        }
        let blank = String::new();
        push_text(&mut lines, blank);
        assert(lines_view(lines@) =~= body.push(Seq::<char>::empty()));
        let prompt = String::from_str("Press Enter to confirm.");
        push_text(&mut lines, prompt);
        assert(""@ =~= Seq::<char>::empty());
        assert(lines_view(lines@) =~= body + seq![""@, "Press Enter to confirm."@]);
        assert(lines_view(lines@) =~= summary_screen(self.config, want));
        join(&lines, "\n")
    }

    /// A multi-select list: one [`multi_select_line`] per label, ticked when
    /// the label is among `selected`, marked on the cursor's row.
    pub fn render_multi_select_list(&self, variants: &Vec<String>, selected: &Vec<String>) -> (r:
        String)
        ensures
            r@ == joined(
                Seq::new(
                    variants@.len(),
                    |i: int|
                        multi_select_line(
                            variants@[i]@,
                            lines_view(selected@).contains(variants@[i]@),
                            i == self.cursor,
                        ),
                ),
                "\n"@,
            ),
    {
        let ghost want = Seq::new(
            variants@.len(),
            |i: int|
                multi_select_line(
                    variants@[i]@,
                    lines_view(selected@).contains(variants@[i]@),
                    i == self.cursor,
                ),
        );
        let mut lines: Vec<String> = Vec::new();
        let mut i: usize = 0;
        while i < variants.len()
            invariant
                i <= variants.len(),
                want == Seq::new(
                    variants@.len(),
                    |i: int|
                        multi_select_line(
                            variants@[i]@,
                            lines_view(selected@).contains(variants@[i]@),
                            i == self.cursor,
                        ),
                ),
                lines_view(lines@) == want.take(i as int),
            decreases variants.len() - i,
        {
            let marker = if i == self.cursor {
                CURSOR_MARKER
            } else {
                CURSOR_BLANK
            };
            let check = if contains_string(selected, variants[i].as_str()) {
                "[x]"
            } else {
                "[ ]"
            };
            let mut line = concat(marker, check);
            append(&mut line, " ");
            append(&mut line, variants[i].as_str());
            assert(line@ == want[i as int]);
            push_text(&mut lines, line);
            i = i + 1;
            assert(lines_view(lines@) =~= want.take(i as int));
        }
        assert(want.take(i as int) =~= want);
        join(&lines, "\n")
    }

    /// The Extras step's list: every extra, ticked when selected.
    pub fn extras_content(&self) -> (r: String)
        ensures
            r@ == joined(
                Seq::new(
                    3,
                    |i: int|
                        multi_select_line(
                            spec_extra_variants()[i].spec_label(),
                            self.selected_extras@.map_values(|e: Extra| e.spec_label()).contains(
                                spec_extra_variants()[i].spec_label(),
                            ),
                            i == self.cursor,
                        ),
                ),
                "\n"@,
            ),
    {
        let all = Extra::variants();
        let mut labels: Vec<String> = Vec::new();
        let mut k: usize = 0;
        while k < all.len()
            invariant
                k <= all.len(),
                all@ == spec_extra_variants(),
                lines_view(labels@) == all@.map_values(|e: Extra| e.spec_label()).take(k as int),
            decreases all.len() - k,
        {
            push_text(&mut labels, String::from_str(all[k].label()));
            k = k + 1;
            assert(lines_view(labels@) =~= all@.map_values(|e: Extra| e.spec_label()).take(k as int));
        }
        let mut chosen: Vec<String> = Vec::new();
        let mut j: usize = 0;
        while j < self.selected_extras.len()
            invariant
                j <= self.selected_extras.len(),
                lines_view(chosen@) == self.selected_extras@.map_values(|e: Extra| e.spec_label()).take(
                    j as int,
                ),
            decreases self.selected_extras.len() - j,
        {
            push_text(&mut chosen, String::from_str(self.selected_extras[j].label()));
            j = j + 1;
            assert(lines_view(chosen@) =~= self.selected_extras@.map_values(
                |e: Extra| e.spec_label(),
            ).take(j as int));
        }
        assert(all@.map_values(|e: Extra| e.spec_label()).take(k as int) =~= all@.map_values(
            |e: Extra| e.spec_label(),
        ));
        assert(self.selected_extras@.map_values(|e: Extra| e.spec_label()).take(j as int)
            =~= self.selected_extras@.map_values(|e: Extra| e.spec_label()));
        assert(labels@.len() == 3);
        assert forall|i: int| 0 <= i < 3 implies labels@[i]@ == spec_extra_variants()[i].spec_label() by {
            assert(lines_view(labels@)[i] == labels@[i]@);
        }
        let r = self.render_multi_select_list(&labels, &chosen);
        assert(Seq::new(
            labels@.len(),
            |i: int|
                multi_select_line(
                    labels@[i]@,
                    lines_view(chosen@).contains(labels@[i]@),
                    i == self.cursor,
                ),
        ) =~= Seq::new(
            3,
            |i: int|
                multi_select_line(
                    spec_extra_variants()[i].spec_label(),
                    self.selected_extras@.map_values(|e: Extra| e.spec_label()).contains(
                        spec_extra_variants()[i].spec_label(),
                    ),
                    i == self.cursor,
                ),
        ));
        r
    }
}

/// Appends one line.
fn push_text(v: &mut Vec<String>, s: String)
    ensures
        lines_view(final(v)@) == lines_view(old(v)@).push(s@),
{
    let ghost prev = v@;
    v.push(s);
    assert(lines_view(v@) =~= lines_view(prev).push(s@));
}

/// Whether `s` is one of `v`.
pub fn contains_string(v: &Vec<String>, s: &str) -> (r: bool)
    ensures
        r == lines_view(v@).contains(s@),
{
    let mut i: usize = 0;
    while i < v.len()
        invariant
            i <= v.len(),
            forall|j: int| 0 <= j < i ==> v@[j]@ != s@,
        decreases v.len() - i,
    {
        if str_eq(v[i].as_str(), s) {
            assert(lines_view(v@)[i as int] == s@);
            return true;
        }
        i = i + 1;
    }
    assert forall|j: int| 0 <= j < lines_view(v@).len() implies lines_view(v@)[j] != s@ by {
        assert(lines_view(v@)[j] == v@[j]@);
    }
    false
}

impl Wizard {
    /// A wizard on its first step with nothing configured, whose project
    /// location starts at `location` (the current directory, say).
    pub fn new(location: &str) -> (r: Wizard)
        ensures
            r.step_index == 0,
            r.cursor == 0,
            r.selected_extras@.len() == 0,
            !r.confirmed,
            !r.exit,
            r.config.is_fresh(),
            r.project_type_handler.is_fresh_at(location@),
            r.vcs_handler.is_fresh(),
            r.languages_handler.is_fresh(),
            r.workflows_handler.is_fresh(),
            r.database_handler.is_fresh(),
            r.remotes_handler.is_fresh(),
            r.wf(),
    {
        Wizard {
            step_index: 0,
            cursor: 0,
            config: ProjectConfig::default(),
            selected_extras: Vec::new(),
            confirmed: false,
            exit: false,
            project_type_handler: ProjectTypeHandler::new(location),
            vcs_handler: VcsHandler::default(),
            languages_handler: LanguagesHandler::default(),
            workflows_handler: WorkflowsHandler::default(),
            database_handler: DatabaseHandler::default(),
            remotes_handler: RemotesHandler::default(),
        }
    }
}

impl Default for Wizard {
    fn default() -> (r: Wizard)
        ensures
            r.step_index == 0,
            r.cursor == 0,
            r.selected_extras@.len() == 0,
            !r.confirmed,
            !r.exit,
            r.config.is_fresh(),
            r.project_type_handler.is_fresh_at(Seq::empty()),
            r.vcs_handler.is_fresh(),
            r.languages_handler.is_fresh(),
            r.workflows_handler.is_fresh(),
            r.database_handler.is_fresh(),
            r.remotes_handler.is_fresh(),
            r.wf(),
    {
        proof {
            reveal_strlit("");
            assert(""@ =~= Seq::<char>::empty());
        }
        Wizard::new("")
    }
}

/// Moving forward and then back comes back to the step one started on, with
/// the configuration unchanged, when there was a step to move forward to.
pub proof fn lemma_next_then_prev(w: Wizard, m: Wizard, n: Wizard)
    requires
        w.step_index + 1 < 8,
        w.advanced(m),
        m.went_back(n),
    ensures
        n.step_index == w.step_index,
        n.config == w.config,
{
}

/// Moving back and then forward comes back to the step one started on, with
/// the configuration unchanged, when there was a step to move back to.
pub proof fn lemma_prev_then_next(w: Wizard, m: Wizard, n: Wizard)
    requires
        w.step_index > 0,
        w.step_index < 8,
        w.went_back(m),
        m.advanced(n),
    ensures
        n.step_index == w.step_index,
        n.config == w.config,
{
}

} // verus!
