//! The project-type step: a new project (name and parent directory) or an
//! existing directory, each with a browse button. What the file system says
//! about the typed paths is handed in by the caller; browsing the directory
//! tree is the caller's too.

use vstd::prelude::*;

use crate::config::{ProjectConfig, ProjectType};
use crate::steps::{Focus, Key, StepResult};
use crate::text::{append, concat};
use crate::widgets::text_input::{edited, TextInput};

verus! {

/// Label of the project-name input.
pub const NAME_LABEL: &'static str = "Project Name";

/// Label of the location input.
pub const LOCATION_LABEL: &'static str = "Location";

/// The two kinds of project.
#[derive(Debug, Clone, Copy, PartialEq, Eq, Structural)]
pub enum TypeChoice {
    New,
    Existing,
}

impl TypeChoice {
    /// Display name.
    pub open spec fn spec_label(self) -> Seq<char> {
        match self {
            TypeChoice::New => "New"@,
            TypeChoice::Existing => "Existing"@,
        }
    }

    /// Display name.
    pub fn label(&self) -> (r: &'static str)
        ensures
            r@ == self.spec_label(),
    {
        match self {
            TypeChoice::New => "New",
            TypeChoice::Existing => "Existing",
        }
    }
}

/// The choices, in display order.
pub open spec fn spec_type_choices() -> Seq<TypeChoice> {
    seq![TypeChoice::New, TypeChoice::Existing]
}

/// `name` joined onto the directory `base`, as the platform's path rules
/// join them, and displayed.
pub uninterp spec fn joined_path(base: Seq<char>, name: Seq<char>) -> Seq<char>;

/// The last component of the path `path`, empty when it has none.
pub uninterp spec fn file_name_of(path: Seq<char>) -> Seq<char>;

/// Joins `name` onto the directory `base` with `std::path::Path::join` and
/// displays the result. The contract only names the result: it is a
/// function of the two strings.
#[verifier::external_body]
fn join_path(base: &str, name: &str) -> (r: String)
    ensures
        r@ == joined_path(base@, name@),
{
    std::path::Path::new(base).join(name).display().to_string()
}

/// The last component of `path` (`std::path::Path::file_name`), lossily
/// decoded, or the empty string when the path has none. The contract only
/// names the result: it is a function of the string.
#[verifier::external_body]
fn path_file_name(path: &str) -> (r: String)
    ensures
        r@ == file_name_of(path@),
{
    match std::path::Path::new(path).file_name() {
        Some(n) => n.to_string_lossy().to_string(),
        None => String::new(),
    }
}

/// What the file system says about the typed paths: whether the full path
/// (see [`ProjectTypeHandler::full_path`]) exists, and whether the typed
/// location exists.
#[derive(Debug, Clone, Copy, PartialEq, Eq, Structural)]
pub struct PathFacts {
    pub target_exists: bool,
    pub location_exists: bool,
}

/// What the caller has to do after a key.
#[derive(Debug, Clone, Copy, PartialEq, Eq, Structural)]
pub enum PtAction {
    Nothing,
    /// The paths changed: check them and call
    /// [`ProjectTypeHandler::validate`].
    Validate,
    /// Open the directory browser (and, once it is open, call
    /// [`ProjectTypeHandler::start_browsing`]).
    Browse,
}

/// The last sub-field of an expanded choice: New has name (0), location
/// (1) and browse (2); Existing has location (0) and browse (1).
pub open spec fn spec_max_subfield(expanded: Option<TypeChoice>) -> nat {
    match expanded {
        Some(TypeChoice::New) => 2,
        Some(TypeChoice::Existing) => 1,
        None => 0,
    }
}

/// The location input's sub-field.
pub open spec fn spec_location_subfield(expanded: Option<TypeChoice>) -> nat {
    match expanded {
        Some(TypeChoice::New) => 1,
        _ => 0,
    }
}

/// The message shown under the sub-fields: what is missing, a warning about
/// the file system, or what will happen.
pub open spec fn validation_message(
    expanded: Option<TypeChoice>,
    name: Seq<char>,
    location: Seq<char>,
    full: Seq<char>,
    facts: PathFacts,
) -> Seq<char> {
    match expanded {
        None => Seq::empty(),
        Some(TypeChoice::New) => if name.len() == 0 {
            "Project name is required."@
        } else if facts.target_exists {
            "Warning: "@ + full + " already exists."@
        } else if !facts.location_exists {
            "Warning: parent "@ + location + " does not exist."@
        } else {
            "Will create: "@ + full
        },
        Some(TypeChoice::Existing) => if location.len() == 0 {
            "Location is required."@
        } else if !facts.target_exists {
            "Warning: "@ + full + " does not exist."@
        } else {
            "Will use: "@ + full
        },
    }
}

/// Whether the choice can be committed: a new project needs a name, a
/// target that does not exist yet and an existing parent; an existing one
/// needs a location that exists.
pub open spec fn spec_valid(
    expanded: Option<TypeChoice>,
    name: Seq<char>,
    location: Seq<char>,
    facts: PathFacts,
) -> bool {
    match expanded {
        None => false,
        Some(TypeChoice::New) => name.len() > 0 && !facts.target_exists && facts.location_exists,
        Some(TypeChoice::Existing) => location.len() > 0 && facts.target_exists,
    }
}

/// The planned action for the project: create the new project's directory,
/// or use the existing one; nothing without a name (new) or a location
/// (existing), or when no type is chosen.
pub open spec fn project_actions(c: ProjectConfig) -> Seq<Seq<char>> {
    match c.project_type {
        Some(ProjectType::New) => if c.project_name@.len() == 0 {
            Seq::empty()
        } else {
            seq!["Create directory: "@ + joined_path(c.project_location@, c.project_name@)]
        },
        Some(ProjectType::Existing) => if c.project_location@.len() == 0 {
            Seq::empty()
        } else {
            seq!["Use existing directory: "@ + c.project_location@]
        },
        None => Seq::empty(),
    }
}

/// What restoring the step from `c` asks of the caller: to check the paths
/// when it reopens a choice (a type was chosen and a project named).
pub open spec fn reopen_action(c: ProjectConfig) -> PtAction {
    if c.project_type is Some && c.project_name@.len() > 0 {
        PtAction::Validate
    } else {
        PtAction::Nothing
    }
}

/// Input state of the project-type step.
#[derive(Debug)]
pub struct ProjectTypeHandler {
    pub focus: Focus,
    /// The choice whose sub-fields are shown.
    pub expanded: Option<TypeChoice>,
    /// Row of the choice list.
    pub choice_cursor: usize,
    pub name_input: TextInput,
    pub location_input: TextInput,
    /// The message under the sub-fields (see [`validation_message`]).
    pub validation_msg: String,
}

impl ProjectTypeHandler {
    /// The path the choice is about: the location joined with the name for
    /// a new project, the location itself otherwise.
    pub open spec fn spec_full_path(&self) -> Seq<char> {
        match self.expanded {
            Some(TypeChoice::New) => joined_path(self.location_input.text(), self.name_input.text()),
            _ => self.location_input.text(),
        }
    }

    /// The state the handler keeps: the cursor is on a choice, and a
    /// sub-field or the browser only has focus with a choice expanded (on
    /// one of its sub-fields).
    pub open spec fn wf(&self) -> bool {
        &&& self.choice_cursor < 2
        &&& self.focus is SubField ==> self.expanded is Some && self.focus->0 <= spec_max_subfield(
            self.expanded,
        )
        &&& self.focus == Focus::Browsing ==> self.expanded is Some
    }

    /// The state a fresh handler starts in, its location being `location`:
    /// on the choice list, nothing expanded, an empty name, the location
    /// input holding `location` with the cursor at its end, no message.
    pub open spec fn is_fresh_at(self, location: Seq<char>) -> bool {
        &&& self.focus == Focus::Choice
        &&& self.expanded is None
        &&& self.choice_cursor == 0
        &&& self.name_input.title() == NAME_LABEL@
        &&& self.name_input.text().len() == 0
        &&& self.name_input.pos() == 0
        &&& self.location_input.title() == LOCATION_LABEL@
        &&& self.location_input.text() == location
        &&& self.location_input.pos() == location.len()
        &&& self.validation_msg@.len() == 0
    }

    /// An empty handler whose location starts at `location` (the current
    /// directory, say).
    pub fn new(location: &str) -> (r: ProjectTypeHandler)
        ensures
            r.is_fresh_at(location@),
            r.wf(),
    {
        ProjectTypeHandler {
            focus: Focus::Choice,
            expanded: None,
            choice_cursor: 0,
            name_input: TextInput::new(NAME_LABEL),
            location_input: TextInput::new(LOCATION_LABEL).with_value(location),
            validation_msg: String::new(),
        }
    }

    /// True while focus is on a sub-field or in the browser.
    pub fn in_details(&self) -> (r: bool)
        ensures
            r == (self.focus is SubField || self.focus == Focus::Browsing),
    {
        match self.focus {
            Focus::SubField(_) | Focus::Browsing => true,
            Focus::Choice => false,
        }
    }

    /// True while a choice is expanded.
    pub fn is_expanded(&self) -> (r: bool)
        ensures
            r == self.expanded is Some,
    {
        self.expanded.is_some()
    }

    /// The path the choice is about (see
    /// [`ProjectTypeHandler::spec_full_path`]).
    pub fn full_path(&self) -> (r: String)
        ensures
            r@ == self.spec_full_path(),
    {
        let location = self.location_input.value();
        match self.expanded {
            Some(TypeChoice::New) => {
                let name = self.name_input.value();
                join_path(location.as_str(), name.as_str())
            },
            _ => location,
        }
    }

    /// The project name an existing directory gets: the location's last
    /// component.
    pub fn derived_name(&self) -> (r: String)
        ensures
            r@ == file_name_of(self.location_input.text()),
    {
        let location = self.location_input.value();
        path_file_name(location.as_str())
    }

    /// Sets the message from the file-system facts about the current paths
    /// (see [`validation_message`]).
    pub fn validate(&mut self, facts: PathFacts)
        ensures
            final(self).validation_msg@ == validation_message(
                old(self).expanded,
                old(self).name_input.text(),
                old(self).location_input.text(),
                old(self).spec_full_path(),
                facts,
            ),
            *final(self) == (ProjectTypeHandler {
                validation_msg: final(self).validation_msg,
                ..*old(self)
            }),
    {
        let choice = match self.expanded {
            Some(c) => c,
            None => {
                self.validation_msg = String::new();
                return;
            },
        };
        let path = self.full_path();
        let name = self.name_input.value();
        let location = self.location_input.value();
        match choice {
            TypeChoice::New => {
                if name.as_str().unicode_len() == 0 {
                    proof {
                        reveal_strlit("Project name is required.");
                    }
                    self.validation_msg = String::from_str("Project name is required.");
                } else if facts.target_exists {
                    let mut m = concat("Warning: ", path.as_str());
                    append(&mut m, " already exists.");
                    self.validation_msg = m;
                } else if !facts.location_exists {
                    let mut m = concat("Warning: parent ", location.as_str());
                    append(&mut m, " does not exist.");
                    self.validation_msg = m;
                } else {
                    self.validation_msg = concat("Will create: ", path.as_str());
                }
            },
            TypeChoice::Existing => {
                if location.as_str().unicode_len() == 0 {
                    proof {
                        reveal_strlit("Location is required.");
                    }
                    self.validation_msg = String::from_str("Location is required.");
                } else if !facts.target_exists {
                    let mut m = concat("Warning: ", path.as_str());
                    append(&mut m, " does not exist.");
                    self.validation_msg = m;
                } else {
                    self.validation_msg = concat("Will use: ", path.as_str());
                }
            },
        }
    }

    /// Whether the choice can be committed (see [`spec_valid`]).
    pub fn is_valid(&self, facts: PathFacts) -> (r: bool)
        ensures
            r == spec_valid(self.expanded, self.name_input.text(), self.location_input.text(), facts),
    {
        match self.expanded {
            None => false,
            Some(TypeChoice::New) => {
                let name = self.name_input.value();
                name.as_str().unicode_len() > 0 && !facts.target_exists && facts.location_exists
            },
            Some(TypeChoice::Existing) => {
                let location = self.location_input.value();
                location.as_str().unicode_len() > 0 && facts.target_exists
            },
        }
    }

    /// The last sub-field of the expanded choice (see
    /// [`spec_max_subfield`]).
    pub fn max_subfield(&self) -> (r: usize)
        ensures
            r == spec_max_subfield(self.expanded),
    {
        match self.expanded {
            Some(TypeChoice::New) => 2,
            Some(TypeChoice::Existing) => 1,
            None => 0,
        }
    }

    /// The browse button's sub-field: the last one.
    pub fn browse_subfield(&self) -> (r: usize)
        ensures
            r == spec_max_subfield(self.expanded),
    {
        self.max_subfield()
    }

    /// The location input's sub-field (see [`spec_location_subfield`]).
    pub fn location_subfield(&self) -> (r: usize)
        ensures
            r == spec_location_subfield(self.expanded),
    {
        match self.expanded {
            Some(TypeChoice::New) => 1,
            _ => 0,
        }
    }
}

impl Default for ProjectTypeHandler {
    fn default() -> (r: ProjectTypeHandler)
        ensures
            r.is_fresh_at(Seq::empty()),
    {
        proof {
            reveal_strlit("");
            assert(""@ =~= Seq::<char>::empty());
        }
        ProjectTypeHandler::new("")
    }
}

/// The choice at position `i`.
pub fn type_choice(i: usize) -> (r: TypeChoice)
    requires
        i < 2,
    ensures
        r == spec_type_choices()[i as int],
{
    if i == 0 {
        TypeChoice::New
    } else {
        TypeChoice::Existing
    }
}

impl ProjectTypeHandler {
    /// The configuration after committing the expanded choice: a new
    /// project keeps its name and location; an existing directory its
    /// location, named after its last component.
    pub open spec fn committed(self, oc: ProjectConfig, nc: ProjectConfig) -> bool {
        &&& nc.project_type == Some(
            if self.expanded == Some(TypeChoice::New) {
                ProjectType::New
            } else {
                ProjectType::Existing
            },
        )
        &&& nc.project_name@ == (if self.expanded == Some(TypeChoice::New) {
            self.name_input.text()
        } else {
            file_name_of(self.location_input.text())
        })
        &&& nc.project_location@ == self.location_input.text()
        &&& nc == (ProjectConfig {
            project_type: nc.project_type,
            project_name: nc.project_name,
            project_location: nc.project_location,
            ..oc
        })
    }

    /// Choice-list keys: q quits; Down/j and Up/k move the cursor;
    /// Enter/Right/l expand the choice under the cursor with focus on its
    /// first sub-field (the paths are then to be checked); Left/h closes the
    /// expanded choice (clearing the message), or goes back when none is.
    pub open spec fn choice_step(self, n: ProjectTypeHandler, key: Key, r: StepResult, a: PtAction) -> bool {
        if key == Key::Char('q') {
            r == StepResult::Quit && a == PtAction::Nothing && n == self
        } else if key == Key::Down || key == Key::Char('j') {
            r == StepResult::Continue && a == PtAction::Nothing && n == (ProjectTypeHandler {
                choice_cursor: if self.choice_cursor + 1 < 2 {
                    (self.choice_cursor + 1) as usize
                } else {
                    self.choice_cursor
                },
                ..self
            })
        } else if key == Key::Up || key == Key::Char('k') {
            r == StepResult::Continue && a == PtAction::Nothing && n == (ProjectTypeHandler {
                choice_cursor: if self.choice_cursor > 0 {
                    (self.choice_cursor - 1) as usize
                } else {
                    0
                },
                ..self
            })
        } else if key == Key::Enter || key == Key::Right || key == Key::Char('l') {
            r == StepResult::Continue && a == PtAction::Validate && n == (ProjectTypeHandler {
                expanded: Some(spec_type_choices()[self.choice_cursor as int]),
                focus: Focus::SubField(0),
                ..self
            })
        } else if key == Key::Left || key == Key::Char('h') {
            a == PtAction::Nothing && if self.expanded is Some {
                r == StepResult::Continue && n.validation_msg@.len() == 0 && n == (ProjectTypeHandler {
                    expanded: None,
                    validation_msg: n.validation_msg,
                    ..self
                })
            } else {
                r == StepResult::Back && n == self
            }
        } else {
            r == StepResult::Continue && a == PtAction::Nothing && n == self
        }
    }

    /// Sub-field keys (on sub-field `field`): Up/Down move between the
    /// sub-fields (Up from the first returns to the choice list; Down from
    /// the last of New moves to Existing); Tab/BackTab cycle; Esc returns to
    /// the choice list. Enter on the browse button, or Space there, asks
    /// for the browser; Enter elsewhere commits and advances when the facts
    /// make the choice valid, and otherwise shows why not. Other keys edit
    /// the focused input (the paths are then to be checked); on the browse
    /// button they do nothing.
    pub open spec fn subfield_step(
        self,
        n: ProjectTypeHandler,
        oc: ProjectConfig,
        nc: ProjectConfig,
        key: Key,
        facts: PathFacts,
        r: StepResult,
        a: PtAction,
    ) -> bool {
        let field = self.focus->0;
        let max = spec_max_subfield(self.expanded);
        let unchanged = nc == oc;
        if key == Key::Up {
            r == StepResult::Continue && a == PtAction::Nothing && unchanged && n == (
            ProjectTypeHandler {
                focus: if field == 0 {
                    Focus::Choice
                } else {
                    Focus::SubField((field - 1) as usize)
                },
                ..self
            })
        } else if key == Key::Down {
            r == StepResult::Continue && a == PtAction::Nothing && unchanged && if field < max {
                n == (ProjectTypeHandler { focus: Focus::SubField((field + 1) as usize), ..self })
            } else if self.expanded == Some(TypeChoice::New) {
                n == (ProjectTypeHandler { choice_cursor: 1, focus: Focus::Choice, ..self })
            } else {
                n == self
            }
        } else if key == Key::Tab {
            r == StepResult::Continue && a == PtAction::Nothing && unchanged && n == (
            ProjectTypeHandler {
                focus: Focus::SubField(
                    if field < max {
                        (field + 1) as usize
                    } else {
                        0
                    },
                ),
                ..self
            })
        } else if key == Key::BackTab {
            r == StepResult::Continue && a == PtAction::Nothing && unchanged && n == (
            ProjectTypeHandler {
                focus: Focus::SubField(
                    if field > 0 {
                        (field - 1) as usize
                    } else {
                        max as usize
                    },
                ),
                ..self
            })
        } else if key == Key::Enter {
            if field == max {
                r == StepResult::Continue && a == PtAction::Browse && unchanged && n == self
            } else if spec_valid(self.expanded, self.name_input.text(), self.location_input.text(), facts) {
                r == StepResult::Done && a == PtAction::Nothing && n == self && self.committed(oc, nc)
            } else {
                &&& r == StepResult::Continue
                &&& a == PtAction::Nothing
                &&& unchanged
                &&& n.validation_msg@ == validation_message(
                    self.expanded,
                    self.name_input.text(),
                    self.location_input.text(),
                    self.spec_full_path(),
                    facts,
                )
                &&& n == (ProjectTypeHandler { validation_msg: n.validation_msg, ..self })
            }
        } else if key == Key::Char(' ') && field == max {
            r == StepResult::Continue && a == PtAction::Browse && unchanged && n == self
        } else if key == Key::Esc {
            r == StepResult::Continue && a == PtAction::Nothing && unchanged && n == (
            ProjectTypeHandler { focus: Focus::Choice, ..self })
        } else if field == max {
            r == StepResult::Continue && a == PtAction::Nothing && unchanged && n == self
        } else if self.expanded == Some(TypeChoice::New) && field == 0 {
            &&& r == StepResult::Continue
            &&& a == PtAction::Validate
            &&& unchanged
            &&& (n.name_input.text(), n.name_input.pos()) == edited(
                self.name_input.text(),
                self.name_input.pos(),
                key,
            )
            &&& n.name_input.title() == self.name_input.title()
            &&& n == (ProjectTypeHandler { name_input: n.name_input, ..self })
        } else {
            &&& r == StepResult::Continue
            &&& a == PtAction::Validate
            &&& unchanged
            &&& (n.location_input.text(), n.location_input.pos()) == edited(
                self.location_input.text(),
                self.location_input.pos(),
                key,
            )
            &&& n.location_input.title() == self.location_input.title()
            &&& n == (ProjectTypeHandler { location_input: n.location_input, ..self })
        }
    }

    /// Writes the expanded choice into the configuration (see
    /// [`ProjectTypeHandler::committed`]).
    pub fn commit_to_config(&self, config: &mut ProjectConfig)
        requires
            self.expanded is Some,
        ensures
            self.committed(*old(config), *final(config)),
    {
        match self.expanded {
            Some(TypeChoice::New) => {
                config.project_type = Some(ProjectType::New);
                config.project_name = self.name_input.value();
                config.project_location = self.location_input.value();
            },
            _ => {
                config.project_type = Some(ProjectType::Existing);
                config.project_name = self.derived_name();
                config.project_location = self.location_input.value();
            },
        }
    }

    fn handle_choice(&mut self, key: Key) -> (r: (StepResult, PtAction))
        requires
            old(self).wf(),
        ensures
            old(self).choice_step(*final(self), key, r.0, r.1),
    {
        if key == Key::Char('q') {
            (StepResult::Quit, PtAction::Nothing)
        } else if key == Key::Down || key == Key::Char('j') {
            if self.choice_cursor + 1 < 2 {
                self.choice_cursor = self.choice_cursor + 1;
            }
            (StepResult::Continue, PtAction::Nothing)
        } else if key == Key::Up || key == Key::Char('k') {
            if self.choice_cursor > 0 {
                self.choice_cursor = self.choice_cursor - 1;
            }
            (StepResult::Continue, PtAction::Nothing)
        } else if key == Key::Enter || key == Key::Right || key == Key::Char('l') {
            let choice = type_choice(self.choice_cursor);
            self.expanded = Some(choice);
            self.focus = Focus::SubField(0);
            (StepResult::Continue, PtAction::Validate)
        } else if key == Key::Left || key == Key::Char('h') {
            if self.expanded.is_some() {
                self.expanded = None;
                self.validation_msg = String::new();
                (StepResult::Continue, PtAction::Nothing)
            } else {
                (StepResult::Back, PtAction::Nothing)
            }
        } else {
            (StepResult::Continue, PtAction::Nothing)
        }
    }

    fn handle_subfield(&mut self, key: Key, field: usize, config: &mut ProjectConfig, facts: PathFacts) -> (r: (
        StepResult,
        PtAction,
    ))
        requires
            old(self).wf(),
            old(self).focus == Focus::SubField(field),
            old(self).name_input.text().len() < usize::MAX,
            old(self).location_input.text().len() < usize::MAX,
        ensures
            old(self).subfield_step(*final(self), *old(config), *final(config), key, facts, r.0, r.1),
    {
        let choice = match self.expanded {
            Some(c) => c,
            None => {
                return (StepResult::Continue, PtAction::Nothing);
            },
        };
        let max = self.max_subfield();
        if key == Key::Up {
            if field == 0 {
                self.focus = Focus::Choice;
            } else {
                self.focus = Focus::SubField(field - 1);
            }
            (StepResult::Continue, PtAction::Nothing)
        } else if key == Key::Down {
            if field < max {
                self.focus = Focus::SubField(field + 1);
            } else if choice == TypeChoice::New {
                self.choice_cursor = 1;
                self.focus = Focus::Choice;
            }
            (StepResult::Continue, PtAction::Nothing)
        } else if key == Key::Tab {
            if field < max {
                self.focus = Focus::SubField(field + 1);
            } else {
                self.focus = Focus::SubField(0);
            }
            (StepResult::Continue, PtAction::Nothing)
        } else if key == Key::BackTab {
            if field > 0 {
                self.focus = Focus::SubField(field - 1);
            } else {
                self.focus = Focus::SubField(max);
            }
            (StepResult::Continue, PtAction::Nothing)
        } else if key == Key::Enter {
            if field == max {
                return (StepResult::Continue, PtAction::Browse);
            }
            if self.is_valid(facts) {
                self.commit_to_config(config);
                (StepResult::Done, PtAction::Nothing)
            } else {
                self.validate(facts);
                (StepResult::Continue, PtAction::Nothing)
            }
        } else if key == Key::Char(' ') && field == max {
            (StepResult::Continue, PtAction::Browse)
        } else if key == Key::Esc {
            self.focus = Focus::Choice;
            (StepResult::Continue, PtAction::Nothing)
        } else if field == max {
            (StepResult::Continue, PtAction::Nothing)
        } else {
            if choice == TypeChoice::New && field == 0 {
                self.name_input.handle_input(key);
            } else {
                self.location_input.handle_input(key);
            }
            (StepResult::Continue, PtAction::Validate)
        }
    }

    /// Handles one key, given what the file system says about the current
    /// paths: on the choice list see [`ProjectTypeHandler::choice_step`], on
    /// a sub-field [`ProjectTypeHandler::subfield_step`]; the second part of
    /// the result tells the caller what to do next. Keys while the browser
    /// is open belong to the browser and change nothing here. The handler's
    /// invariant is kept.
    pub fn handle_input(&mut self, key: Key, config: &mut ProjectConfig, facts: PathFacts) -> (r: (
        StepResult,
        PtAction,
    ))
        requires
            old(self).wf(),
            old(self).name_input.text().len() < usize::MAX,
            old(self).location_input.text().len() < usize::MAX,
        ensures
            final(self).wf(),
            old(self).focus == Focus::Choice ==> *final(config) == *old(config) && old(self).choice_step(
                *final(self),
                key,
                r.0,
                r.1,
            ),
            old(self).focus is SubField ==> old(self).subfield_step(
                *final(self),
                *old(config),
                *final(config),
                key,
                facts,
                r.0,
                r.1,
            ),
            old(self).focus == Focus::Browsing ==> r == (StepResult::Continue, PtAction::Nothing)
                && *final(self) == *old(self) && *final(config) == *old(config),
    {
        match self.focus {
            Focus::Choice => self.handle_choice(key),
            Focus::SubField(field) => self.handle_subfield(key, field, config, facts),
            Focus::Browsing => (StepResult::Continue, PtAction::Nothing),
        }
    }

    /// The browser opened: it takes the keys.
    pub fn start_browsing(&mut self)
        requires
            old(self).wf(),
            old(self).expanded is Some,
        ensures
            *final(self) == (ProjectTypeHandler { focus: Focus::Browsing, ..*old(self) }),
            final(self).wf(),
    {
        self.focus = Focus::Browsing;
    }

    /// The browser closed without a choice: focus returns to the browse
    /// button.
    pub fn stop_browsing(&mut self)
        requires
            old(self).wf(),
            old(self).expanded is Some,
        ensures
            *final(self) == (ProjectTypeHandler {
                focus: Focus::SubField(spec_max_subfield(old(self).expanded) as usize),
                ..*old(self)
            }),
            final(self).wf(),
    {
        self.focus = Focus::SubField(self.browse_subfield());
    }

    /// The browser chose `dir`: it becomes the location (cursor at its end)
    /// and focus moves to the location input; the paths are then to be
    /// checked.
    pub fn browse_selected(&mut self, dir: &str)
        requires
            old(self).wf(),
            old(self).expanded is Some,
        ensures
            final(self).focus == Focus::SubField(spec_location_subfield(old(self).expanded) as usize),
            final(self).location_input.title() == LOCATION_LABEL@,
            final(self).location_input.text() == dir@,
            final(self).location_input.pos() == dir@.len(),
            *final(self) == (ProjectTypeHandler {
                focus: final(self).focus,
                location_input: final(self).location_input,
                ..*old(self)
            }),
            final(self).wf(),
    {
        self.focus = Focus::SubField(self.location_subfield());
        self.location_input = TextInput::new(LOCATION_LABEL).with_value(dir);
    }

    /// The state [`ProjectTypeHandler::restore_from_config`] leaves: with a
    /// chosen type the cursor goes to it, and with a project name the
    /// choice reopens on its first sub-field with the configured name (new
    /// projects) and location.
    pub open spec fn restored(self, n: ProjectTypeHandler, config: ProjectConfig) -> bool {
        match config.project_type {
            None => n == self,
            Some(pt) => {
                let choice = if pt == ProjectType::New {
                    TypeChoice::New
                } else {
                    TypeChoice::Existing
                };
                let cursor: usize = if pt == ProjectType::New {
                    0
                } else {
                    1
                };
                if config.project_name@.len() == 0 {
                    n == (ProjectTypeHandler { choice_cursor: cursor, ..self })
                } else {
                    &&& n.choice_cursor == cursor
                    &&& n.expanded == Some(choice)
                    &&& n.focus == Focus::SubField(0)
                    &&& n.validation_msg == self.validation_msg
                    &&& n.location_input.text() == config.project_location@
                    &&& n.location_input.title() == self.location_input.title()
                    &&& n.name_input.title() == self.name_input.title()
                    &&& if choice == TypeChoice::New {
                        n.name_input.text() == config.project_name@
                    } else {
                        n.name_input == self.name_input
                    }
                }
            },
        }
    }

    /// Restores the step from the configuration when navigating back (see
    /// [`ProjectTypeHandler::restored`]); when it reopens a choice the
    /// paths are then to be checked.
    pub fn restore_from_config(&mut self, config: &ProjectConfig) -> (a: PtAction)
        requires
            old(self).wf(),
        ensures
            old(self).restored(*final(self), *config),
            a == reopen_action(*config),
            final(self).wf(),
    {
        let pt = match config.project_type {
            Some(pt) => pt,
            None => {
                return PtAction::Nothing;
            },
        };
        let choice = match pt {
            ProjectType::New => TypeChoice::New,
            ProjectType::Existing => TypeChoice::Existing,
        };
        self.choice_cursor = match pt {
            ProjectType::New => 0,
            ProjectType::Existing => 1,
        };
        if config.project_name.as_str().unicode_len() == 0 {
            return PtAction::Nothing;
        }
        self.expanded = Some(choice);
        self.focus = Focus::SubField(0);
        match choice {
            TypeChoice::New => {
                self.name_input.set_value(config.project_name.as_str());
                self.location_input.set_value(config.project_location.as_str());
            },
            TypeChoice::Existing => {
                self.location_input.set_value(config.project_location.as_str());
            },
        }
        PtAction::Validate
    }

    /// What confirming the wizard will do for the project (see
    /// [`project_actions`]).
    pub fn planned_actions(&self, config: &ProjectConfig) -> (r: Vec<String>)
        ensures
            r@.map_values(|s: String| s@) == project_actions(*config),
    {
        let mut actions: Vec<String> = Vec::new();
        match config.project_type {
            Some(ProjectType::New) => {
                if config.project_name.as_str().unicode_len() > 0 {
                    let path = join_path(config.project_location.as_str(), config.project_name.as_str());
                    actions.push(concat("Create directory: ", path.as_str()));
                }
            },
            Some(ProjectType::Existing) => {
                if config.project_location.as_str().unicode_len() > 0 {
                    actions.push(concat("Use existing directory: ", config.project_location.as_str()));
                }
            },
            None => {},
        }
        assert(actions@.map_values(|s: String| s@) =~= project_actions(*config));
        actions
    }

    /// The directory confirming the wizard creates: the new project's path,
    /// when it has a name; none for an existing directory.
    pub fn dir_to_create(config: &ProjectConfig) -> (r: Option<String>)
        ensures
            match r {
                Some(p) => config.project_type == Some(ProjectType::New) && config.project_name@.len()
                    > 0 && p@ == joined_path(config.project_location@, config.project_name@),
                None => !(config.project_type == Some(ProjectType::New) && config.project_name@.len()
                    > 0),
            },
    {
        if config.project_type == Some(ProjectType::New) && config.project_name.as_str().unicode_len()
            > 0 {
            Some(join_path(config.project_location.as_str(), config.project_name.as_str()))
        } else {
            None
        }
    }
}

/// Restoring the step from a configuration with a project name and pressing
/// Enter, when the file system makes the reopened choice valid, commits the
/// same project again and advances: a new project keeps its name and
/// location; an existing directory keeps its location and is named after
/// its last component, so it keeps its name when that is how it was named.
pub proof fn lemma_restore_then_enter(
    h: ProjectTypeHandler,
    config: ProjectConfig,
    n: ProjectTypeHandler,
    m: ProjectTypeHandler,
    nc: ProjectConfig,
    facts: PathFacts,
    r: StepResult,
    a: PtAction,
)
    requires
        config.project_type is Some,
        config.project_name@.len() > 0,
        h.restored(n, config),
        spec_valid(n.expanded, n.name_input.text(), n.location_input.text(), facts),
        n.subfield_step(m, config, nc, Key::Enter, facts, r, a),
    ensures
        r == StepResult::Done,
        nc.project_type == config.project_type,
        nc.project_location@ == config.project_location@,
        config.project_type == Some(ProjectType::New) ==> nc.project_name@ == config.project_name@,
        config.project_type == Some(ProjectType::Existing) ==> nc.project_name@ == file_name_of(
            config.project_location@,
        ),
{
}

/// On a sub-field, Tab then BackTab returns to the same sub-field and
/// changes nothing else, in the handler or the configuration.
pub proof fn lemma_tab_then_backtab(
    h: ProjectTypeHandler,
    n: ProjectTypeHandler,
    m: ProjectTypeHandler,
    c0: ProjectConfig,
    c1: ProjectConfig,
    c2: ProjectConfig,
    f1: PathFacts,
    f2: PathFacts,
    r1: StepResult,
    a1: PtAction,
    r2: StepResult,
    a2: PtAction,
)
    requires
        h.wf(),
        h.focus is SubField,
        h.subfield_step(n, c0, c1, Key::Tab, f1, r1, a1),
        n.subfield_step(m, c1, c2, Key::BackTab, f2, r2, a2),
    ensures
        m == h,
        c2 == c0,
{
}

/// On a sub-field, BackTab then Tab returns to the same sub-field and
/// changes nothing else, in the handler or the configuration.
pub proof fn lemma_backtab_then_tab(
    h: ProjectTypeHandler,
    n: ProjectTypeHandler,
    m: ProjectTypeHandler,
    c0: ProjectConfig,
    c1: ProjectConfig,
    c2: ProjectConfig,
    f1: PathFacts,
    f2: PathFacts,
    r1: StepResult,
    a1: PtAction,
    r2: StepResult,
    a2: PtAction,
)
    requires
        h.wf(),
        h.focus is SubField,
        h.subfield_step(n, c0, c1, Key::BackTab, f1, r1, a1),
        n.subfield_step(m, c1, c2, Key::Tab, f2, r2, a2),
    ensures
        m == h,
        c2 == c0,
{
}

/// Pressing Enter on an input of the expanded choice commits it exactly
/// when the file system allows it: a new project needs a name, a parent
/// directory that exists and no directory already at its path; an existing
/// project needs a location that exists. A new project is never committed
/// onto a directory that already exists.
pub proof fn lemma_enter_commits_only_when_allowed(
    h: ProjectTypeHandler,
    n: ProjectTypeHandler,
    oc: ProjectConfig,
    nc: ProjectConfig,
    facts: PathFacts,
    r: StepResult,
    a: PtAction,
)
    requires
        h.wf(),
        h.focus is SubField,
        h.subfield_step(n, oc, nc, Key::Enter, facts, r, a),
    ensures
        r == StepResult::Done ==> h.expanded is Some,
        (r == StepResult::Done && h.expanded == Some(TypeChoice::New)) ==> !facts.target_exists
            && facts.location_exists && h.name_input.text().len() > 0,
        (r == StepResult::Done && h.expanded == Some(TypeChoice::Existing)) ==> facts.target_exists
            && h.location_input.text().len() > 0,
        h.focus->0 < spec_max_subfield(h.expanded) ==> (r == StepResult::Done <==> match h.expanded {
            Some(TypeChoice::New) => h.name_input.text().len() > 0 && facts.location_exists
                && !facts.target_exists,
            Some(TypeChoice::Existing) => h.location_input.text().len() > 0 && facts.target_exists,
            None => false,
        }),
        r == StepResult::Done ==> nc.project_type == Some(
            if h.expanded == Some(TypeChoice::New) {
                ProjectType::New
            } else {
                ProjectType::Existing
            },
        ),
{
}

/// Whether a choice may be committed depends on the file system as follows:
/// a new project needs a name, an existing parent directory and nothing at
/// its path yet; an existing project needs a location that exists; with
/// nothing expanded there is nothing to commit.
pub proof fn lemma_valid_follows_file_system(name: Seq<char>, location: Seq<char>, facts: PathFacts)
    ensures
        spec_valid(Some(TypeChoice::New), name, location, facts) ==> !facts.target_exists,
        spec_valid(Some(TypeChoice::New), name, location, facts) <==> (name.len() > 0
            && facts.location_exists && !facts.target_exists),
        spec_valid(Some(TypeChoice::Existing), name, location, facts) <==> (location.len() > 0
            && facts.target_exists),
        !spec_valid(None, name, location, facts),
{
}

} // verus!
