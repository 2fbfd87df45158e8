//! The version-control step: Git (with a default branch), Jujutsu (colocated
//! with git or native, with a default branch) or no version control.

use vstd::prelude::*;

use crate::config::{ProjectConfig, Vcs};
use crate::steps::{Focus, Key, StepResult};
use crate::text::concat;
use crate::widgets::text_input::{edited, TextInput};

verus! {

/// Label of the default-branch input.
pub const DEFAULT_BRANCH_LABEL: &'static str = "Default branch";

/// The branch the default-branch input starts with.
pub const DEFAULT_BRANCH: &'static str = "main";

/// The choices, in display order.
pub open spec fn spec_vcs_choices() -> Seq<Vcs> {
    seq![Vcs::Git, Vcs::Jujutsu, Vcs::NoVcs]
}

/// Position of a choice in the list.
pub open spec fn vcs_pos(v: Vcs) -> int {
    match v {
        Vcs::Git => 0,
        Vcs::Jujutsu => 1,
        Vcs::NoVcs => 2,
    }
}

/// The `i`-th choice.
pub fn vcs_choice(i: usize) -> (r: Vcs)
    requires
        i < 3,
    ensures
        r == spec_vcs_choices()[i as int],
        vcs_pos(r) == i,
{
    match i {
        0 => Vcs::Git,
        1 => Vcs::Jujutsu,
        _ => Vcs::NoVcs,
    }
}

/// Position of a choice in the list.
pub fn vcs_index(v: Vcs) -> (r: usize)
    ensures
        r == vcs_pos(v),
        r < 3,
{
    match v {
        Vcs::Git => 0,
        Vcs::Jujutsu => 1,
        Vcs::NoVcs => 2,
    }
}

/// The last sub-field of an expanded choice: Git has only the branch input
/// (0); Jujutsu has the colocate row (0) and the branch input (1).
pub open spec fn spec_max_subfield(expanded: Option<Vcs>) -> nat {
    match expanded {
        Some(Vcs::Jujutsu) => 1,
        _ => 0,
    }
}

/// Whether sub-field `field` of the expanded choice is the branch input (as
/// opposed to Jujutsu's colocate row).
pub open spec fn spec_subfield_is_text(expanded: Option<Vcs>, field: nat) -> bool {
    match expanded {
        Some(Vcs::Git) => true,
        Some(Vcs::Jujutsu) => field == 1,
        _ => false,
    }
}

/// The planned actions for a version-control configuration: git gets an
/// init line and, with a branch, a branch line; Jujutsu gets an init line
/// naming its mode and, when colocated with a branch, a branch line; no
/// version control (or none chosen yet) plans nothing.
pub open spec fn vcs_actions(vcs: Option<Vcs>, branch: Seq<char>, colocate: bool) -> Seq<Seq<char>> {
    let branch_line = "Set default branch to '"@ + branch + "'"@;
    match vcs {
        Some(Vcs::Git) => if branch.len() > 0 {
            seq!["Initialize git repository"@, branch_line]
        } else {
            seq!["Initialize git repository"@]
        },
        Some(Vcs::Jujutsu) => {
            let first = if colocate {
                "Initialize jj repository (colocated with git)"@
            } else {
                "Initialize jj repository (native)"@
            };
            if branch.len() > 0 && colocate {
                seq![first, branch_line]
            } else {
                seq![first]
            }
        },
        _ => Seq::empty(),
    }
}

/// Input state of the version-control step.
#[derive(Debug)]
pub struct VcsHandler {
    pub focus: Focus,
    /// The choice whose sub-fields are shown.
    pub expanded: Option<Vcs>,
    /// Row of the choice list.
    pub choice_cursor: usize,
    pub default_branch_input: TextInput,
    /// Jujutsu only: whether the repository is colocated with git.
    pub jj_colocate: bool,
}

impl VcsHandler {
    /// The state the handler keeps: the cursor is on a choice, sub-field
    /// focus only happens with a choice expanded and on one of its
    /// sub-fields, and the directory browser is never used here.
    pub open spec fn wf(&self) -> bool {
        &&& self.choice_cursor < 3
        &&& self.focus != Focus::Browsing
        &&& self.focus is SubField ==> self.expanded is Some && self.focus->0 <= spec_max_subfield(
            self.expanded,
        )
    }

    /// The configuration after committing the expanded choice (no version
    /// control when nothing is expanded): git keeps the branch and is never
    /// colocated, Jujutsu keeps the branch and the colocate flag, no version
    /// control clears both.
    pub open spec fn committed(self, oc: ProjectConfig, nc: ProjectConfig) -> bool {
        let v = match self.expanded {
            Some(v) => v,
            None => Vcs::NoVcs,
        };
        &&& nc.vcs == Some(v)
        &&& nc.default_branch@ == (if v == Vcs::NoVcs {
            Seq::empty()
        } else {
            self.default_branch_input.text()
        })
        &&& nc.jj_colocate == (v == Vcs::Jujutsu && self.jj_colocate)
        &&& nc == (ProjectConfig {
            vcs: nc.vcs,
            default_branch: nc.default_branch,
            jj_colocate: nc.jj_colocate,
            ..oc
        })
    }

    /// The state [`VcsHandler::restore_from_config`] leaves.
    pub open spec fn restored(self, n: VcsHandler, config: ProjectConfig) -> bool {
        match config.vcs {
            None => n == self,
            Some(Vcs::NoVcs) => n == (VcsHandler {
                choice_cursor: 2,
                expanded: None,
                focus: Focus::Choice,
                ..self
            }),
            Some(v) => {
                &&& n.choice_cursor == vcs_pos(v)
                &&& n.expanded == Some(v)
                &&& n.focus == Focus::SubField(0)
                &&& n.default_branch_input.text() == config.default_branch@
                &&& n.default_branch_input.title() == self.default_branch_input.title()
                &&& n.default_branch_input.pos() == (if self.default_branch_input.pos()
                    <= config.default_branch@.len() {
                    self.default_branch_input.pos()
                } else {
                    config.default_branch@.len()
                })
                &&& n.jj_colocate == config.jj_colocate
            },
        }
    }

    /// Restores the step from the configuration when navigating back; does
    /// nothing when no choice was made yet. Git and Jujutsu reopen their
    /// sub-fields with the configured branch (and colocate flag); no version
    /// control stays closed.
    pub fn restore_from_config(&mut self, config: &ProjectConfig)
        ensures
            old(self).restored(*final(self), *config),
    {
        let vcs = match config.vcs {
            Some(v) => v,
            None => {
                return;
            },
        };
        self.choice_cursor = vcs_index(vcs);
        match vcs {
            Vcs::NoVcs => {
                self.expanded = None;
                self.focus = Focus::Choice;
            },
            _ => {
                self.expanded = Some(vcs);
                self.focus = Focus::SubField(0);
                self.default_branch_input.set_value(config.default_branch.as_str());
                self.jj_colocate = config.jj_colocate;
            },
        }
    }

    /// The last sub-field of the expanded choice (see [`spec_max_subfield`]).
    pub fn max_subfield(&self) -> (r: usize)
        ensures
            r == spec_max_subfield(self.expanded),
    {
        match self.expanded {
            Some(Vcs::Jujutsu) => 1,
            _ => 0,
        }
    }

    /// Whether sub-field `field` is the branch input (see
    /// [`spec_subfield_is_text`]).
    pub fn current_subfield_is_text(&self, field: usize) -> (r: bool)
        ensures
            r == spec_subfield_is_text(self.expanded, field as nat),
    {
        match self.expanded {
            Some(Vcs::Git) => true,
            Some(Vcs::Jujutsu) => field == 1,
            _ => false,
        }
    }

    /// Writes the expanded choice into the configuration (see
    /// [`VcsHandler::committed`]).
    pub fn commit_to_config(&self, config: &mut ProjectConfig)
        ensures
            self.committed(*old(config), *final(config)),
    {
        let vcs = match self.expanded {
            Some(v) => v,
            None => Vcs::NoVcs,
        };
        config.vcs = Some(vcs);
        match vcs {
            Vcs::Git => {
                config.default_branch = self.default_branch_input.value();
                config.jj_colocate = false;
            },
            Vcs::Jujutsu => {
                config.default_branch = self.default_branch_input.value();
                config.jj_colocate = self.jj_colocate;
            },
            Vcs::NoVcs => {
                config.default_branch = String::new();
                config.jj_colocate = false;
            },
        }
    }

    /// Choice-list keys: q quits; Down/j and Up/k move the cursor;
    /// Enter/Space/Right/l on "Skip" commits no version control and
    /// advances, on Git or Jujutsu expands it with focus on its first
    /// sub-field; Left/h closes the expanded choice, or goes back when none
    /// is expanded.
    pub open spec fn choice_step(
        self,
        n: VcsHandler,
        oc: ProjectConfig,
        nc: ProjectConfig,
        key: Key,
        r: StepResult,
    ) -> bool {
        let unchanged_config = nc == oc;
        if key == Key::Char('q') {
            r == StepResult::Quit && n == self && unchanged_config
        } else if key == Key::Down || key == Key::Char('j') {
            r == StepResult::Continue && unchanged_config && n == (VcsHandler {
                choice_cursor: if self.choice_cursor + 1 < 3 {
                    (self.choice_cursor + 1) as usize
                } else {
                    self.choice_cursor
                },
                ..self
            })
        } else if key == Key::Up || key == Key::Char('k') {
            r == StepResult::Continue && unchanged_config && n == (VcsHandler {
                choice_cursor: if self.choice_cursor > 0 {
                    (self.choice_cursor - 1) as usize
                } else {
                    0
                },
                ..self
            })
        } else if key == Key::Enter || key == Key::Char(' ') || key == Key::Right || key == Key::Char(
            'l',
        ) {
            let choice = spec_vcs_choices()[self.choice_cursor as int];
            if choice == Vcs::NoVcs {
                &&& r == StepResult::Done
                &&& n == (VcsHandler { expanded: None, ..self })
                &&& nc.vcs == Some(Vcs::NoVcs)
                &&& nc.default_branch@.len() == 0
                &&& !nc.jj_colocate
                &&& nc == (ProjectConfig {
                    vcs: nc.vcs,
                    default_branch: nc.default_branch,
                    jj_colocate: nc.jj_colocate,
                    ..oc
                })
            } else {
                r == StepResult::Continue && unchanged_config && n == (VcsHandler {
                    expanded: Some(choice),
                    focus: Focus::SubField(0),
                    ..self
                })
            }
        } else if key == Key::Left || key == Key::Char('h') {
            unchanged_config && if self.expanded is Some {
                r == StepResult::Continue && n == (VcsHandler { expanded: None, ..self })
            } else {
                r == StepResult::Back && n == self
            }
        } else {
            r == StepResult::Continue && unchanged_config && n == self
        }
    }

    /// Sub-field keys (on sub-field `field`): Up moves to the previous
    /// sub-field or, from the first, to the choice list; Down moves to the
    /// next sub-field or, from the last, to the next choice (staying put on
    /// the last choice); Tab/BackTab cycle through the sub-fields; Enter
    /// commits and advances; Esc returns to the choice list. Otherwise, on
    /// the colocate row Left/h sets colocated, Right/l native and Space
    /// flips it; on the branch input the key edits the text.
    pub open spec fn subfield_step(
        self,
        n: VcsHandler,
        oc: ProjectConfig,
        nc: ProjectConfig,
        key: Key,
        r: StepResult,
    ) -> bool {
        let field = self.focus->0;
        let max = spec_max_subfield(self.expanded);
        let unchanged_config = nc == oc;
        if key == Key::Up {
            r == StepResult::Continue && unchanged_config && n == (VcsHandler {
                focus: if field == 0 {
                    Focus::Choice
                } else {
                    Focus::SubField((field - 1) as usize)
                },
                ..self
            })
        } else if key == Key::Down {
            r == StepResult::Continue && unchanged_config && if field < max {
                n == (VcsHandler { focus: Focus::SubField((field + 1) as usize), ..self })
            } else if vcs_pos(self.expanded->0) + 1 < 3 {
                n == (VcsHandler {
                    choice_cursor: (vcs_pos(self.expanded->0) + 1) as usize,
                    focus: Focus::Choice,
                    ..self
                })
            } else {
                n == self
            }
        } else if key == Key::Tab {
            r == StepResult::Continue && unchanged_config && n == (VcsHandler {
                focus: Focus::SubField(
                    if field < max {
                        (field + 1) as usize
                    } else {
                        0
                    },
                ),
                ..self
            })
        } else if key == Key::BackTab {
            r == StepResult::Continue && unchanged_config && n == (VcsHandler {
                focus: Focus::SubField(
                    if field > 0 {
                        (field - 1) as usize
                    } else {
                        max as usize
                    },
                ),
                ..self
            })
        } else if key == Key::Enter {
            r == StepResult::Done && n == self && self.committed(oc, nc)
        } else if key == Key::Esc {
            r == StepResult::Continue && unchanged_config && n == (VcsHandler {
                focus: Focus::Choice,
                ..self
            })
        } else if !spec_subfield_is_text(self.expanded, field as nat) {
            r == StepResult::Continue && unchanged_config && n == (VcsHandler {
                jj_colocate: if key == Key::Left || key == Key::Char('h') {
                    true
                } else if key == Key::Right || key == Key::Char('l') {
                    false
                } else if key == Key::Char(' ') {
                    !self.jj_colocate
                } else {
                    self.jj_colocate
                },
                ..self
            })
        } else {
            &&& r == StepResult::Continue
            &&& unchanged_config
            &&& (n.default_branch_input.text(), n.default_branch_input.pos()) == edited(
                self.default_branch_input.text(),
                self.default_branch_input.pos(),
                key,
            )
            &&& n.default_branch_input.title() == self.default_branch_input.title()
            &&& n == (VcsHandler { default_branch_input: n.default_branch_input, ..self })
        }
    }

    fn handle_choice(&mut self, key: Key, config: &mut ProjectConfig) -> (r: StepResult)
        requires
            old(self).wf(),
        ensures
            old(self).choice_step(*final(self), *old(config), *final(config), key, r),
    {
        if key == Key::Char('q') {
            StepResult::Quit
        } else if key == Key::Down || key == Key::Char('j') {
            if self.choice_cursor + 1 < 3 {
                self.choice_cursor = self.choice_cursor + 1;
            }
            StepResult::Continue
        } else if key == Key::Up || key == Key::Char('k') {
            if self.choice_cursor > 0 {
                self.choice_cursor = self.choice_cursor - 1;
            }
            StepResult::Continue
        } else if key == Key::Enter || key == Key::Char(' ') || key == Key::Right || key == Key::Char(
            'l',
        ) {
            let choice = vcs_choice(self.choice_cursor);
            if choice == Vcs::NoVcs {
                self.expanded = None;
                config.vcs = Some(Vcs::NoVcs);
                config.default_branch = String::new();
                config.jj_colocate = false;
                return StepResult::Done;
            }
            self.expanded = Some(choice);
            self.focus = Focus::SubField(0);
            StepResult::Continue
        } else if key == Key::Left || key == Key::Char('h') {
            if self.expanded.is_some() {
                self.expanded = None;
                StepResult::Continue
            } else {
                StepResult::Back
            }
        } else {
            StepResult::Continue
        }
    }

    fn handle_subfield(&mut self, key: Key, field: usize, config: &mut ProjectConfig) -> (r:
        StepResult)
        requires
            old(self).wf(),
            old(self).focus == Focus::SubField(field),
            old(self).default_branch_input.text().len() < usize::MAX,
        ensures
            old(self).subfield_step(*final(self), *old(config), *final(config), key, r),
    {
        let choice = match self.expanded {
            Some(v) => v,
            None => {
                return StepResult::Continue;
            },
        };
        if key == Key::Up {
            if field == 0 {
                self.focus = Focus::Choice;
            } else {
                self.focus = Focus::SubField(field - 1);
            }
            return StepResult::Continue;
        } else if key == Key::Down {
            if field < self.max_subfield() {
                self.focus = Focus::SubField(field + 1);
            } else {
                let next_idx = vcs_index(choice) + 1;
                if next_idx < 3 {
                    self.choice_cursor = next_idx;
                    self.focus = Focus::Choice;
                }
            }
            return StepResult::Continue;
        } else if key == Key::Tab {
            if field < self.max_subfield() {
                self.focus = Focus::SubField(field + 1);
            } else {
                self.focus = Focus::SubField(0);
            }
            return StepResult::Continue;
        } else if key == Key::BackTab {
            if field > 0 {
                self.focus = Focus::SubField(field - 1);
            } else {
                self.focus = Focus::SubField(self.max_subfield());
            }
            return StepResult::Continue;
        } else if key == Key::Enter {
            self.commit_to_config(config);
            return StepResult::Done;
        } else if key == Key::Esc {
            self.focus = Focus::Choice;
            return StepResult::Continue;
        }
        if !self.current_subfield_is_text(field) {
            if key == Key::Left || key == Key::Char('h') {
                self.jj_colocate = true;
            } else if key == Key::Right || key == Key::Char('l') {
                self.jj_colocate = false;
            } else if key == Key::Char(' ') {
                self.jj_colocate = !self.jj_colocate;
            }
        } else {
            self.default_branch_input.handle_input(key);
        }
        StepResult::Continue
    }

    /// Handles one key: on the choice list see [`VcsHandler::choice_step`],
    /// on a sub-field [`VcsHandler::subfield_step`]. The handler's invariant
    /// is kept.
    pub fn handle_input(&mut self, key: Key, config: &mut ProjectConfig) -> (r: StepResult)
        requires
            old(self).wf(),
            old(self).default_branch_input.text().len() < usize::MAX,
        ensures
            final(self).wf(),
            old(self).focus == Focus::Choice ==> old(self).choice_step(
                *final(self),
                *old(config),
                *final(config),
                key,
                r,
            ),
            old(self).focus is SubField ==> old(self).subfield_step(
                *final(self),
                *old(config),
                *final(config),
                key,
                r,
            ),
    {
        match self.focus {
            Focus::SubField(n) => self.handle_subfield(key, n, config),
            _ => self.handle_choice(key, config),
        }
    }

    /// True while focus is on a sub-field.
    pub fn in_details(&self) -> (r: bool)
        ensures
            r == self.focus is SubField,
    {
        match self.focus {
            Focus::SubField(_) => true,
            _ => false,
        }
    }

    /// True while a choice is expanded, wherever focus sits.
    pub fn is_expanded(&self) -> (r: bool)
        ensures
            r == self.expanded is Some,
    {
        self.expanded.is_some()
    }

    /// What confirming the wizard will do for version control (see
    /// [`vcs_actions`]).
    pub fn planned_actions(&self, config: &ProjectConfig) -> (r: Vec<String>)
        ensures
            r@.map_values(|s: String| s@) == vcs_actions(
                config.vcs,
                config.default_branch@,
                config.jj_colocate,
            ),
    {
        let mut actions: Vec<String> = Vec::new();
        let branch_line = {
            let mut l = concat("Set default branch to '", config.default_branch.as_str());
            crate::text::append(&mut l, "'");
            l
        };
        match config.vcs {
            Some(Vcs::Git) => {
                actions.push(String::from_str("Initialize git repository"));
                if config.default_branch.as_str().unicode_len() > 0 {
                    actions.push(branch_line);
                }
            },
            Some(Vcs::Jujutsu) => {
                if config.jj_colocate {
                    actions.push(String::from_str("Initialize jj repository (colocated with git)"));
                } else {
                    actions.push(String::from_str("Initialize jj repository (native)"));
                }
                if config.default_branch.as_str().unicode_len() > 0 && config.jj_colocate {
                    actions.push(branch_line);
                }
            },
            _ => {},
        }
        proof {
            reveal_strlit("Initialize git repository");
            reveal_strlit("Initialize jj repository (colocated with git)");
            reveal_strlit("Initialize jj repository (native)");
        }
        assert(actions@.map_values(|s: String| s@) =~= vcs_actions(
            config.vcs,
            config.default_branch@,
            config.jj_colocate,
        ));
        actions
    }

    /// Version control is not initialised yet: always `Ok`.
    pub fn execute(&self, config: &ProjectConfig) -> (r: Result<(), std::io::Error>)
        ensures
            r is Ok,
    {
        Ok(())
    }
}

impl VcsHandler {
    /// The state a fresh one starts in (see `Default`).
    pub open spec fn is_fresh(self) -> bool {
        &&& self.focus == Focus::Choice
        &&& self.expanded is None
        &&& self.choice_cursor == 0
        &&& self.default_branch_input.title() == DEFAULT_BRANCH_LABEL@
        &&& self.default_branch_input.text() == DEFAULT_BRANCH@
        &&& self.default_branch_input.pos() == DEFAULT_BRANCH@.len()
        &&& self.jj_colocate
    }
}

impl Default for VcsHandler {
    fn default() -> (r: VcsHandler)
        ensures
            r.is_fresh(),
    {
        VcsHandler {
            focus: Focus::Choice,
            expanded: None,
            choice_cursor: 0,
            default_branch_input: TextInput::new(DEFAULT_BRANCH_LABEL).with_value(DEFAULT_BRANCH),
            jj_colocate: true,
        }
    }
}

/// Restoring the step from a git or Jujutsu configuration (git never
/// colocated) and pressing Enter commits the same version control, branch
/// and colocate flag again, and advances.
pub proof fn lemma_restore_then_enter(
    h: VcsHandler,
    config: ProjectConfig,
    n: VcsHandler,
    m: VcsHandler,
    nc: ProjectConfig,
    r: StepResult,
)
    requires
        config.vcs == Some(Vcs::Git) || config.vcs == Some(Vcs::Jujutsu),
        config.vcs == Some(Vcs::Git) ==> !config.jj_colocate,
        h.restored(n, config),
        n.subfield_step(m, config, nc, Key::Enter, r),
    ensures
        r == StepResult::Done,
        nc.vcs == config.vcs,
        nc.default_branch@ == config.default_branch@,
        nc.jj_colocate == config.jj_colocate,
{
}

} // verus!
