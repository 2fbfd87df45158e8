//! The Remotes step: a list of configured git remotes, each editable in a
//! sub-panel (name, location, fetch/push), plus one row per hosting
//! provider to add a remote and a "No remotes" row.

use vstd::prelude::*;

use crate::config::{views, ProjectConfig, RemoteConfig, RemoteConfigView, RemoteProvider};
use crate::seqs::{
    advance_flat, first_index_by, flat_positions, lemma_first_index_absent, lemma_first_index_found,
    lemma_flat_positions_bounds, spec_advance,
};
use crate::steps::{Focus, Key, StepResult};
use crate::text::{append, concat};
use crate::validate::{message_view, spec_remote_name_problem};
use crate::widgets::text_input::{edited, TextInput};

pub use crate::validate::remote_name_problem;

verus! {

/// Label of the name input.
pub const NAME_LABEL: &'static str = "Name";

/// Label of the location input.
pub const LOCATION_LABEL: &'static str = "Location";

/// The name a first remote starts with.
pub const FIRST_REMOTE_NAME: &'static str = "origin";

/// Reported for a remote without a location.
pub const LOCATION_EMPTY: &'static str = "Location cannot be empty.";

/// Reported for a remote that neither fetches nor pushes.
pub const NO_OPERATION: &'static str = "Must have at least one operation (fetch or push).";

/// The providers offered, in display order.
pub open spec fn spec_provider_choices() -> Seq<RemoteProvider> {
    seq![
        RemoteProvider::GitHub,
        RemoteProvider::Codeberg,
        RemoteProvider::GitLab,
        RemoteProvider::Bitbucket,
        RemoteProvider::SelfHosted,
    ]
}

/// The `i`-th provider offered.
pub fn provider_choice(i: usize) -> (r: RemoteProvider)
    requires
        i < 5,
    ensures
        r == spec_provider_choices()[i as int],
{
    match i {
        0 => RemoteProvider::GitHub,
        1 => RemoteProvider::Codeberg,
        2 => RemoteProvider::GitLab,
        3 => RemoteProvider::Bitbucket,
        _ => RemoteProvider::SelfHosted,
    }
}

/// The rows of a remote's sub-panel, top to bottom.
#[derive(Debug, Clone, Copy, PartialEq, Eq, Structural)]
pub enum NavRow {
    Name,
    Location,
    /// Two checkboxes: fetch (column 0) and push (column 1).
    Operations,
    Confirm,
}

/// The sub-panel row at position `i`.
pub open spec fn spec_nav_row(i: int) -> NavRow {
    if i == 0 {
        NavRow::Name
    } else if i == 1 {
        NavRow::Location
    } else if i == 2 {
        NavRow::Operations
    } else {
        NavRow::Confirm
    }
}

/// Column counts of the sub-panel rows: only Operations has two cells.
#[verifier::opaque]
pub open spec fn nav_counts() -> Seq<usize> {
    seq![1usize, 1usize, 2usize, 1usize]
}

/// How many cells sub-panel row `row` has: two on Operations, one elsewhere.
pub open spec fn row_width(row: int) -> int {
    if row == 2 {
        2
    } else {
        1
    }
}

/// The column counts, one by one.
pub proof fn lemma_nav_counts()
    ensures
        nav_counts().len() == 4,
        nav_counts()[0] == 1,
        nav_counts()[1] == 1,
        nav_counts()[2] == 2,
        nav_counts()[3] == 1,
        forall|r: int| 0 <= r < 4 ==> nav_counts()[r] == row_width(r),
{
    reveal(nav_counts);
}

/// What a row of the choice list stands for.
#[derive(Debug, Clone, Copy, PartialEq, Eq, Structural)]
pub enum CursorTarget {
    /// Row 0: commit and advance.
    Next,
    /// A configured remote.
    Configured(usize),
    /// A provider, to add a remote of it.
    Provider(RemoteProvider),
    /// The last row: drop every remote and advance.
    NoRemotes,
}

/// The target of choice row `cursor` with `n` configured remotes: "Next",
/// then the remotes, then the providers, then "No remotes".
pub open spec fn target_at(cursor: int, n: int) -> CursorTarget {
    if cursor == 0 {
        CursorTarget::Next
    } else if cursor < 1 + n {
        CursorTarget::Configured((cursor - 1) as usize)
    } else if cursor < 1 + n + 5 {
        CursorTarget::Provider(spec_provider_choices()[cursor - 1 - n])
    } else {
        CursorTarget::NoRemotes
    }
}

/// The problem with a configured remote, if any, prefixed by its provider:
/// a rejected name, an empty location, or neither fetch nor push.
pub open spec fn spec_remote_problem(r: RemoteConfigView) -> Option<Seq<char>> {
    let prefix = r.0.spec_label() + ": "@;
    if spec_remote_name_problem(r.1) is Some {
        Some(prefix + spec_remote_name_problem(r.1)->0)
    } else if r.2.len() == 0 {
        Some(prefix + LOCATION_EMPTY@)
    } else if !r.3 && !r.4 {
        Some(prefix + NO_OPERATION@)
    } else {
        None
    }
}

/// Whether a remote has a problem.
pub open spec fn has_problem() -> spec_fn(RemoteConfigView) -> bool {
    |r: RemoteConfigView| spec_remote_problem(r) is Some
}

/// The problem of the first remote that has one.
pub open spec fn spec_first_problem(rs: Seq<RemoteConfigView>) -> Option<Seq<char>> {
    let i = first_index_by(rs, has_problem());
    if i >= 0 {
        spec_remote_problem(rs[i])
    } else {
        None
    }
}

/// The remote a provider row adds: named "origin" when it is the first one
/// (unnamed otherwise), located at the provider's prefix, fetching and
/// pushing.
pub open spec fn new_remote(p: RemoteProvider, first: bool) -> RemoteConfigView {
    (p, if first {
        FIRST_REMOTE_NAME@
    } else {
        Seq::empty()
    }, p.spec_url_prefix(), true, true)
}

/// The planned action for a remote: "Add remote '<name>' → <location>
/// (<operations>)".
pub open spec fn remote_action(r: RemoteConfigView) -> Seq<char> {
    let ops = if r.3 && r.4 {
        "fetch+push"@
    } else if r.3 {
        "fetch"@
    } else if r.4 {
        "push"@
    } else {
        "none"@
    };
    "Add remote '"@ + r.1 + "' → "@ + r.2 + " ("@ + ops + ")"@
}

/// Input state of the Remotes step.
#[derive(Debug)]
pub struct RemotesHandler {
    /// Choice row (see [`target_at`]).
    pub cursor: usize,
    /// The remotes being edited, in the order they were added.
    pub configured: Vec<RemoteConfig>,
    /// The remote whose sub-panel is open.
    pub expanded: Option<usize>,
    pub focus: Focus,
    /// Row of the open sub-panel.
    pub row_cursor: usize,
    /// Column within that row.
    pub col_cursor: usize,
    pub name_input: TextInput,
    pub location_input: TextInput,
}

impl RemotesHandler {
    /// The configured remotes, as values.
    pub open spec fn remotes_v(&self) -> Seq<RemoteConfigView> {
        views(self.configured@)
    }

    /// Number of choice rows: "Next", the remotes, the providers and "No
    /// remotes".
    pub open spec fn spec_choice_count(&self) -> int {
        1 + self.configured@.len() as int + 5 + 1
    }

    /// The target of the cursor's row.
    pub open spec fn target(&self) -> CursorTarget {
        target_at(self.cursor as int, self.configured@.len() as int)
    }

    /// The remotes with the inputs written into the open remote.
    pub open spec fn synced(&self) -> Seq<RemoteConfigView> {
        match self.expanded {
            Some(i) => {
                let r = self.remotes_v()[i as int];
                self.remotes_v().update(
                    i as int,
                    (r.0, self.name_input.text(), self.location_input.text(), r.3, r.4),
                )
            },
            None => self.remotes_v(),
        }
    }

    /// The problem shown while editing: the typed name's, an empty typed
    /// location, or the open remote doing neither fetch nor push.
    pub open spec fn spec_live_problem(&self) -> Option<Seq<char>> {
        if spec_remote_name_problem(self.name_input.text()) is Some {
            spec_remote_name_problem(self.name_input.text())
        } else if self.location_input.text().len() == 0 {
            Some(LOCATION_EMPTY@)
        } else if self.expanded is Some && !self.remotes_v()[self.expanded->0 as int].3
            && !self.remotes_v()[self.expanded->0 as int].4 {
            Some(NO_OPERATION@)
        } else {
            None
        }
    }

    /// The state the handler keeps: the open remote exists, and the 2-D
    /// cursor is on a cell of the sub-panel.
    pub open spec fn wf(&self) -> bool {
        &&& self.expanded is Some ==> self.expanded->0 < self.configured@.len()
        &&& self.row_cursor < 4
        &&& self.col_cursor < row_width(self.row_cursor as int)
    }

    /// The state [`RemotesHandler::restore_from_config`] leaves.
    pub open spec fn restored(self, n: RemotesHandler, config: ProjectConfig) -> bool {
        &&& n.remotes_v() == views(config.remotes@)
        &&& n.cursor == 0
        &&& n.expanded is None
        &&& n.focus == Focus::Choice
        &&& n.row_cursor == 0
        &&& n.col_cursor == 0
        &&& n.name_input.title() == NAME_LABEL@
        &&& n.name_input.text().len() == 0
        &&& n.name_input.pos() == 0
        &&& n.location_input.title() == LOCATION_LABEL@
        &&& n.location_input.text().len() == 0
        &&& n.location_input.pos() == 0
    }

    /// Restores the step from the configuration when navigating back: the
    /// configured remotes are taken over and everything else is reset.
    pub fn restore_from_config(&mut self, config: &ProjectConfig)
        ensures
            old(self).restored(*final(self), *config),
    {
        self.configured = copy_remotes(&config.remotes);
        self.cursor = 0;
        self.expanded = None;
        self.focus = Focus::Choice;
        self.row_cursor = 0;
        self.col_cursor = 0;
        self.name_input = TextInput::new(NAME_LABEL);
        self.location_input = TextInput::new(LOCATION_LABEL);
    }

    /// Number of choice rows (see [`RemotesHandler::spec_choice_count`]).
    pub fn choice_count(&self) -> (r: usize)
        requires
            self.configured@.len() + 7 <= usize::MAX,
        ensures
            r == self.spec_choice_count(),
    {
        1 + self.configured.len() + 5 + 1
    }

    /// The target of the cursor's row (see [`target_at`]).
    pub fn cursor_target(&self) -> (r: CursorTarget)
        requires
            self.configured@.len() + 7 <= usize::MAX,
        ensures
            r == self.target(),
    {
        if self.cursor == 0 {
            return CursorTarget::Next;
        }
        let configured_end = 1 + self.configured.len();
        if self.cursor < configured_end {
            return CursorTarget::Configured(self.cursor - 1);
        }
        let provider_end = configured_end + 5;
        if self.cursor < provider_end {
            return CursorTarget::Provider(provider_choice(self.cursor - configured_end));
        }
        CursorTarget::NoRemotes
    }

    /// Opens remote `idx`'s sub-panel at its first cell, with the inputs
    /// showing its name and location.
    pub fn expand(&mut self, idx: usize)
        requires
            idx < old(self).configured@.len(),
        ensures
            old(self).after_expand(*final(self), idx),
    {
        self.expanded = Some(idx);
        self.focus = Focus::SubField(0);
        self.row_cursor = 0;
        self.col_cursor = 0;
        let mut name = TextInput::new(NAME_LABEL);
        name.set_value(self.configured[idx].name.as_str());
        self.name_input = name;
        let mut location = TextInput::new(LOCATION_LABEL);
        location.set_value(self.configured[idx].location.as_str());
        self.location_input = location;
    }

    /// Opening remote `idx`'s sub-panel (see [`RemotesHandler::expand`]).
    pub open spec fn after_expand(self, n: RemotesHandler, idx: usize) -> bool {
        &&& n.expanded == Some(idx)
        &&& n.focus == Focus::SubField(0)
        &&& n.row_cursor == 0
        &&& n.col_cursor == 0
        &&& n.name_input.title() == NAME_LABEL@
        &&& n.name_input.text() == self.remotes_v()[idx as int].1
        &&& n.name_input.pos() == 0
        &&& n.location_input.title() == LOCATION_LABEL@
        &&& n.location_input.text() == self.remotes_v()[idx as int].2
        &&& n.location_input.pos() == 0
        &&& n.cursor == self.cursor
        &&& n.configured == self.configured
    }

    /// Writes the inputs into the open remote.
    pub fn sync_inputs_to_scratch(&mut self)
        requires
            old(self).expanded is Some ==> old(self).expanded->0 < old(self).configured@.len(),
        ensures
            final(self).remotes_v() == old(self).synced(),
            *final(self) == (RemotesHandler { configured: final(self).configured, ..*old(self) }),
    {
        if let Some(idx) = self.expanded {
            let old_r = self.configured[idx].duplicate();
            let r = RemoteConfig {
                provider: old_r.provider,
                name: self.name_input.value(),
                location: self.location_input.value(),
                fetch: old_r.fetch,
                push: old_r.push,
            };
            self.configured.set(idx, r);
            assert(self.remotes_v() =~= old(self).synced());
        }
    }

    /// Writes the inputs back and closes the sub-panel; focus returns to the
    /// choice list.
    pub fn collapse_persist(&mut self)
        requires
            old(self).expanded is Some ==> old(self).expanded->0 < old(self).configured@.len(),
        ensures
            final(self).remotes_v() == old(self).synced(),
            *final(self) == (RemotesHandler {
                configured: final(self).configured,
                expanded: None,
                focus: Focus::Choice,
                ..*old(self)
            }),
    {
        self.sync_inputs_to_scratch();
        self.expanded = None;
        self.focus = Focus::Choice;
    }

    /// Adds a remote of `provider` (see [`new_remote`]), puts the cursor on
    /// it and opens its sub-panel.
    pub fn add_remote(&mut self, provider: RemoteProvider)
        requires
            old(self).configured@.len() + 8 <= usize::MAX,
        ensures
            final(self).remotes_v() == old(self).remotes_v().push(
                new_remote(provider, old(self).configured@.len() == 0),
            ),
            (RemotesHandler { configured: final(self).configured, cursor: (1 + old(
                self,
            ).configured@.len()) as usize, ..*old(self) }).after_expand(
                *final(self),
                old(self).configured@.len() as usize,
            ),
    {
        let name = if self.configured.len() == 0 {
            String::from_str(FIRST_REMOTE_NAME)
        } else {
            String::new()
        };
        let location = String::from_str(provider.url_prefix());
        let ghost before = self.configured@;
        let r = RemoteConfig { provider, name, location, fetch: true, push: true };
        self.configured.push(r);
        assert(self.remotes_v() =~= views(before).push(r@));
        proof {
            reveal_strlit("");
        }
        assert(r@ == new_remote(provider, before.len() == 0));
        let idx = self.configured.len() - 1;
        self.cursor = 1 + idx;
        self.expand(idx);
    }

    /// Removes remote `idx`. If its sub-panel was open it closes (focus to
    /// the choice list); an open remote after it keeps its sub-panel under
    /// its new index; the cursor moves onto the last row if it fell off.
    pub fn remove_configured(&mut self, idx: usize)
        requires
            idx < old(self).configured@.len(),
            old(self).configured@.len() + 7 <= usize::MAX,
        ensures
            old(self).after_remove(*final(self), idx),
    {
        if self.expanded == Some(idx) {
            self.expanded = None;
            self.focus = Focus::Choice;
        } else if let Some(exp) = self.expanded {
            if exp > idx {
                self.expanded = Some(exp - 1);
            }
        }
        let ghost before = self.configured@;
        self.configured.remove(idx);
        assert(self.remotes_v() =~= views(before).remove(idx as int));
        if self.cursor >= self.choice_count() {
            self.cursor = self.choice_count() - 1;
        }
    }

    /// Removing remote `idx` (see [`RemotesHandler::remove_configured`]).
    pub open spec fn after_remove(self, n: RemotesHandler, idx: usize) -> bool {
        let count = self.spec_choice_count() - 1;
        &&& n.remotes_v() == self.remotes_v().remove(idx as int)
        &&& n.expanded == (match self.expanded {
            Some(e) => if e == idx {
                None
            } else if e > idx {
                Some((e - 1) as usize)
            } else {
                Some(e)
            },
            None => None,
        })
        &&& n.focus == (if self.expanded == Some(idx) {
            Focus::Choice
        } else {
            self.focus
        })
        &&& n.cursor == (if self.cursor >= count {
            (count - 1) as usize
        } else {
            self.cursor
        })
        &&& n == (RemotesHandler {
            configured: n.configured,
            expanded: n.expanded,
            focus: n.focus,
            cursor: n.cursor,
            ..self
        })
    }

    /// Writes the inputs back and commits the remotes to the configuration.
    pub fn commit_to_config(&mut self, config: &mut ProjectConfig)
        requires
            old(self).expanded is Some ==> old(self).expanded->0 < old(self).configured@.len(),
        ensures
            final(self).remotes_v() == old(self).synced(),
            *final(self) == (RemotesHandler { configured: final(self).configured, ..*old(self) }),
            views(final(config).remotes@) == old(self).synced(),
            *final(config) == (ProjectConfig { remotes: final(config).remotes, ..*old(config) }),
    {
        self.sync_inputs_to_scratch();
        config.remotes = copy_remotes(&self.configured);
    }

    /// The problem of one remote (see [`spec_remote_problem`]).
    pub fn validate_remote(remote: &RemoteConfig) -> (r: Option<String>)
        ensures
            match r {
                Some(m) => spec_remote_problem(remote@) == Some(m@),
                None => spec_remote_problem(remote@) is None,
            },
    {
        let mut prefix = concat(remote.provider.label(), ": ");
        if let Some(msg) = remote_name_problem(remote.name.as_str()) {
            append(&mut prefix, msg);
            return Some(prefix);
        }
        if remote.location.as_str().unicode_len() == 0 {
            append(&mut prefix, LOCATION_EMPTY);
            return Some(prefix);
        }
        if !remote.fetch && !remote.push {
            append(&mut prefix, NO_OPERATION);
            return Some(prefix);
        }
        None
    }

    /// The problem of the first remote that has one (see
    /// [`spec_first_problem`]).
    pub fn validate_all(&self) -> (r: Option<String>)
        ensures
            match r {
                Some(m) => spec_first_problem(self.remotes_v()) == Some(m@),
                None => spec_first_problem(self.remotes_v()) is None,
            },
    {
        let ghost rs = self.remotes_v();
        let mut i: usize = 0;
        while i < self.configured.len()
            invariant
                i <= self.configured.len(),
                rs == self.remotes_v(),
                forall|j: int| 0 <= j < i ==> !has_problem()(#[trigger] rs[j]),
            decreases self.configured.len() - i,
        {
            match Self::validate_remote(&self.configured[i]) {
                Some(m) => {
                    assert(has_problem()(rs[i as int]));
                    proof {
                        lemma_first_index_found(rs, has_problem(), i as int);
                    }
                    return Some(m);
                },
                None => {},
            }
            assert(!has_problem()(rs[i as int]));
            i = i + 1;
        }
        proof {
            lemma_first_index_absent(rs, has_problem());
        }
        None
    }

    /// The problem shown while editing (see
    /// [`RemotesHandler::spec_live_problem`]).
    pub fn validate_current_live(&self) -> (r: Option<&'static str>)
        requires
            self.expanded is Some ==> self.expanded->0 < self.configured@.len(),
        ensures
            message_view(r) == self.spec_live_problem(),
    {
        let name = self.name_input.value();
        if let Some(msg) = remote_name_problem(name.as_str()) {
            return Some(msg);
        }
        let location = self.location_input.value();
        if location.as_str().unicode_len() == 0 {
            return Some(LOCATION_EMPTY);
        }
        if let Some(idx) = self.expanded {
            if !self.configured[idx].fetch && !self.configured[idx].push {
                return Some(NO_OPERATION);
            }
        }
        None
    }

    /// The sub-panel row under the 2-D cursor.
    pub fn current_row(&self) -> (r: NavRow)
        requires
            self.row_cursor < 4,
        ensures
            r == spec_nav_row(self.row_cursor as int),
    {
        match self.row_cursor {
            0 => NavRow::Name,
            1 => NavRow::Location,
            2 => NavRow::Operations,
            _ => NavRow::Confirm,
        }
    }

    /// Moves the 2-D cursor one cell forward (or backward) through the
    /// sub-panel's five cells, wrapping at both ends.
    pub fn advance_flattened(&mut self, backward: bool)
        ensures
            match spec_advance(nav_counts(), old(self).row_cursor, old(self).col_cursor, backward) {
                Some((r, c)) => *final(self) == (RemotesHandler {
                    row_cursor: r,
                    col_cursor: c,
                    ..*old(self)
                }),
                None => *final(self) == *old(self),
            },
    {
        let counts: Vec<usize> = vec![1, 1, 2, 1];
        proof {
            lemma_nav_counts();
        }
        assert(counts@ =~= nav_counts());
        match advance_flat(&counts, self.row_cursor, self.col_cursor, backward) {
            Some((r, c)) => {
                self.row_cursor = r;
                self.col_cursor = c;
            },
            None => {},
        }
    }

    /// True while focus is inside a sub-panel.
    pub fn in_details(&self) -> (r: bool)
        ensures
            r == self.focus is SubField,
    {
        match self.focus {
            Focus::SubField(_) => true,
            _ => false,
        }
    }

    /// True while a sub-panel is open, wherever focus sits.
    pub fn is_expanded(&self) -> (r: bool)
        ensures
            r == self.expanded is Some,
    {
        self.expanded.is_some()
    }

    /// What confirming the wizard will do for remotes: one
    /// [`remote_action`] per configured remote, in order.
    pub fn planned_actions(&self, config: &ProjectConfig) -> (r: Vec<String>)
        ensures
            r@.map_values(|s: String| s@) == views(config.remotes@).map_values(
                |x: RemoteConfigView| remote_action(x),
            ),
    {
        let ghost want = views(config.remotes@).map_values(|x: RemoteConfigView| remote_action(x));
        let mut actions: Vec<String> = Vec::new();
        let mut i: usize = 0;
        while i < config.remotes.len()
            invariant
                i <= config.remotes.len(),
                want == views(config.remotes@).map_values(|x: RemoteConfigView| remote_action(x)),
                actions@.map_values(|s: String| s@) == want.take(i as int),
            decreases config.remotes.len() - i,
        {
            let r = &config.remotes[i];
            let ops = if r.fetch && r.push {
                "fetch+push"
            } else if r.fetch {
                "fetch"
            } else if r.push {
                "push"
            } else {
                "none"
            };
            let mut line = concat("Add remote '", r.name.as_str());
            append(&mut line, "' → ");
            append(&mut line, r.location.as_str());
            append(&mut line, " (");
            append(&mut line, ops);
            append(&mut line, ")");
            assert(line@ == want[i as int]);
            let ghost prev = actions@;
            actions.push(line);
            assert(actions@.map_values(|s: String| s@) =~= prev.map_values(|s: String| s@).push(line@));
            i = i + 1;
            assert(actions@.map_values(|s: String| s@) =~= want.take(i as int));
        }
        assert(want.take(i as int) =~= want);
        actions
    }

    /// Nothing is written for remotes yet: always `Ok`.
    pub fn execute(&self, config: &ProjectConfig) -> (r: Result<(), std::io::Error>)
        ensures
            r is Ok,
    {
        Ok(())
    }
}

/// A copy of a list of remotes, with the same values.
pub fn copy_remotes(v: &Vec<RemoteConfig>) -> (r: Vec<RemoteConfig>)
    ensures
        views(r@) == views(v@),
{
    let mut r: Vec<RemoteConfig> = Vec::new();
    let mut i: usize = 0;
    while i < v.len()
        invariant
            i <= v.len(),
            views(r@) == views(v@).take(i as int),
        decreases v.len() - i,
    {
        let d = v[i].duplicate();
        let ghost prev = r@;
        r.push(d);
        assert(views(r@) =~= views(prev).push(d@));
        i = i + 1;
        assert(views(r@) =~= views(v@).take(i as int));
    }
    assert(views(v@).take(i as int) =~= views(v@));
    r
}

impl RemotesHandler {
    /// The state a fresh one starts in (see `Default`).
    pub open spec fn is_fresh(self) -> bool {
        &&& self.cursor == 0
        &&& self.configured@.len() == 0
        &&& self.expanded is None
        &&& self.focus == Focus::Choice
        &&& self.row_cursor == 0
        &&& self.col_cursor == 0
        &&& self.name_input.title() == NAME_LABEL@
        &&& self.name_input.text().len() == 0
        &&& self.name_input.pos() == 0
        &&& self.location_input.title() == LOCATION_LABEL@
        &&& self.location_input.text().len() == 0
        &&& self.location_input.pos() == 0
    }
}

impl Default for RemotesHandler {
    fn default() -> (r: RemotesHandler)
        ensures
            r.is_fresh(),
    {
        RemotesHandler {
            cursor: 0,
            configured: Vec::new(),
            expanded: None,
            focus: Focus::Choice,
            row_cursor: 0,
            col_cursor: 0,
            name_input: TextInput::new(NAME_LABEL),
            location_input: TextInput::new(LOCATION_LABEL),
        }
    }
}

/// Whether a key commits on "Next" / "No remotes" and opens or adds on the
/// other rows.
pub open spec fn is_accept_key(key: Key) -> bool {
    key == Key::Enter || key == Key::Right || key == Key::Char('l')
}

impl RemotesHandler {
    /// The remotes with the given name and location written into the open
    /// remote.
    pub open spec fn with_inputs(&self, name: Seq<char>, location: Seq<char>) -> Seq<RemoteConfigView> {
        match self.expanded {
            Some(i) => {
                let r = self.remotes_v()[i as int];
                self.remotes_v().update(i as int, (r.0, name, location, r.3, r.4))
            },
            None => self.remotes_v(),
        }
    }

    /// Closing the sub-panel: the inputs are written back, nothing is open,
    /// focus is on the choice list.
    pub open spec fn after_collapse(self, n: RemotesHandler) -> bool {
        n.remotes_v() == self.synced() && n == (RemotesHandler {
            configured: n.configured,
            expanded: None,
            focus: Focus::Choice,
            ..self
        })
    }

    /// Leaving the sub-panel for the choice list (it stays open): the inputs
    /// are written back.
    pub open spec fn after_leave(self, n: RemotesHandler) -> bool {
        n.remotes_v() == self.synced() && n == (RemotesHandler {
            configured: n.configured,
            focus: Focus::Choice,
            ..self
        })
    }

    /// Closing from Confirm or an input: only when
    /// [`RemotesHandler::spec_live_problem`] finds nothing.
    pub open spec fn after_confirm(self, n: RemotesHandler) -> bool {
        if self.spec_live_problem() is None {
            self.after_collapse(n)
        } else {
            n == self
        }
    }

    /// Moving to row `row`, first column.
    pub open spec fn after_row(self, n: RemotesHandler, row: int) -> bool {
        n == (RemotesHandler { row_cursor: row as usize, col_cursor: 0, ..self })
    }

    /// Choice-list keys: q quits; Down/j and Up/k move the cursor; Space on
    /// a remote removes it; Enter/Right/l on "Next" commits the remotes and
    /// advances unless one has a problem (then nothing happens), on a remote
    /// opens it, on a provider adds a remote of it, on "No remotes" drops
    /// every remote, closes any open sub-panel (whose remote is gone),
    /// commits and advances; Left/h closes the open sub-panel, or goes back
    /// when none is open.
    pub open spec fn choice_step(
        self,
        n: RemotesHandler,
        oc: ProjectConfig,
        nc: ProjectConfig,
        key: Key,
        r: StepResult,
    ) -> bool {
        let unchanged_config = nc == oc;
        if key == Key::Char('q') {
            r == StepResult::Quit && n == self && unchanged_config
        } else if key == Key::Down || key == Key::Char('j') {
            r == StepResult::Continue && unchanged_config && n == (RemotesHandler {
                cursor: if self.cursor + 1 < self.spec_choice_count() {
                    (self.cursor + 1) as usize
                } else {
                    self.cursor
                },
                ..self
            })
        } else if key == Key::Up || key == Key::Char('k') {
            r == StepResult::Continue && unchanged_config && n == (RemotesHandler {
                cursor: if self.cursor > 0 {
                    (self.cursor - 1) as usize
                } else {
                    0
                },
                ..self
            })
        } else if key == Key::Char(' ') {
            r == StepResult::Continue && unchanged_config && match self.target() {
                CursorTarget::Configured(idx) => self.after_remove(n, idx),
                _ => n == self,
            }
        } else if is_accept_key(key) {
            match self.target() {
                CursorTarget::Next => if spec_first_problem(self.remotes_v()) is Some {
                    r == StepResult::Continue && n == self && unchanged_config
                } else {
                    &&& r == StepResult::Done
                    &&& n.remotes_v() == self.synced()
                    &&& n == (RemotesHandler { configured: n.configured, ..self })
                    &&& views(nc.remotes@) == self.synced()
                    &&& nc == (ProjectConfig { remotes: nc.remotes, ..oc })
                },
                CursorTarget::Configured(idx) => r == StepResult::Continue && unchanged_config
                    && self.after_expand(n, idx),
                CursorTarget::Provider(p) => {
                    &&& r == StepResult::Continue
                    &&& unchanged_config
                    &&& n.remotes_v() == self.remotes_v().push(
                        new_remote(p, self.configured@.len() == 0),
                    )
                    &&& (RemotesHandler {
                        configured: n.configured,
                        cursor: (1 + self.configured@.len()) as usize,
                        ..self
                    }).after_expand(n, self.configured@.len() as usize)
                },
                CursorTarget::NoRemotes => {
                    &&& r == StepResult::Done
                    &&& n.configured@.len() == 0
                    &&& n == (RemotesHandler { configured: n.configured, expanded: None, ..self })
                    &&& nc.remotes@.len() == 0
                    &&& nc == (ProjectConfig { remotes: nc.remotes, ..oc })
                },
            }
        } else if key == Key::Left || key == Key::Char('h') {
            unchanged_config && if self.expanded is Some {
                r == StepResult::Continue && self.after_collapse(n)
            } else {
                r == StepResult::Back && n == self
            }
        } else {
            r == StepResult::Continue && unchanged_config && n == self
        }
    }

    /// Sub-panel keys. Esc returns to the choice list (writing the inputs
    /// back); Up/Down move between rows (Up from the first row returns to
    /// the choice list); Tab/BackTab step through the five cells. On
    /// Confirm: q quits, Space/Enter close the panel when nothing is wrong,
    /// k moves up. On the name or location input: Enter closes the panel
    /// when nothing is wrong, other keys edit the input, which is written
    /// back. On the operations row: q quits, Left/h and Right/l pick fetch or
    /// push, Space/Enter flip the picked one.
    pub open spec fn subfield_step(self, n: RemotesHandler, key: Key, r: StepResult) -> bool {
        let row = spec_nav_row(self.row_cursor as int);
        if key == Key::Esc {
            r == StepResult::Continue && self.after_leave(n)
        } else if key == Key::Up {
            r == StepResult::Continue && if self.row_cursor == 0 {
                self.after_leave(n)
            } else {
                self.after_row(n, self.row_cursor - 1)
            }
        } else if key == Key::Down {
            r == StepResult::Continue && if self.row_cursor + 1 < 4 {
                self.after_row(n, self.row_cursor + 1)
            } else {
                n == self
            }
        } else if key == Key::Tab || key == Key::BackTab {
            r == StepResult::Continue && match spec_advance(
                nav_counts(),
                self.row_cursor,
                self.col_cursor,
                key == Key::BackTab,
            ) {
                Some((rr, c)) => n == (RemotesHandler { row_cursor: rr, col_cursor: c, ..self }),
                None => n == self,
            }
        } else {
            match row {
                NavRow::Confirm => if key == Key::Char('q') {
                    r == StepResult::Quit && n == self
                } else if key == Key::Char(' ') || key == Key::Enter {
                    r == StepResult::Continue && self.after_confirm(n)
                } else if key == Key::Char('k') {
                    r == StepResult::Continue && if self.row_cursor > 0 {
                        self.after_row(n, self.row_cursor - 1)
                    } else {
                        n == self
                    }
                } else {
                    r == StepResult::Continue && n == self
                },
                NavRow::Name => r == StepResult::Continue && if key == Key::Enter {
                    self.after_confirm(n)
                } else {
                    &&& (n.name_input.text(), n.name_input.pos()) == edited(
                        self.name_input.text(),
                        self.name_input.pos(),
                        key,
                    )
                    &&& n.name_input.title() == self.name_input.title()
                    &&& n.remotes_v() == self.with_inputs(n.name_input.text(), self.location_input.text())
                    &&& n == (RemotesHandler {
                        configured: n.configured,
                        name_input: n.name_input,
                        ..self
                    })
                },
                NavRow::Location => r == StepResult::Continue && if key == Key::Enter {
                    self.after_confirm(n)
                } else {
                    &&& (n.location_input.text(), n.location_input.pos()) == edited(
                        self.location_input.text(),
                        self.location_input.pos(),
                        key,
                    )
                    &&& n.location_input.title() == self.location_input.title()
                    &&& n.remotes_v() == self.with_inputs(self.name_input.text(), n.location_input.text())
                    &&& n == (RemotesHandler {
                        configured: n.configured,
                        location_input: n.location_input,
                        ..self
                    })
                },
                NavRow::Operations => if key == Key::Char('q') {
                    r == StepResult::Quit && n == self
                } else if key == Key::Left || key == Key::Char('h') {
                    r == StepResult::Continue && n == (RemotesHandler { col_cursor: 0, ..self })
                } else if key == Key::Right || key == Key::Char('l') {
                    r == StepResult::Continue && n == (RemotesHandler { col_cursor: 1, ..self })
                } else if key == Key::Char(' ') || key == Key::Enter {
                    r == StepResult::Continue && match self.expanded {
                        Some(i) => {
                            let x = self.remotes_v()[i as int];
                            if self.col_cursor == 0 {
                                n.remotes_v() == self.remotes_v().update(
                                    i as int,
                                    (x.0, x.1, x.2, !x.3, x.4),
                                ) && n == (RemotesHandler { configured: n.configured, ..self })
                            } else if self.col_cursor == 1 {
                                n.remotes_v() == self.remotes_v().update(
                                    i as int,
                                    (x.0, x.1, x.2, x.3, !x.4),
                                ) && n == (RemotesHandler { configured: n.configured, ..self })
                            } else {
                                n == self
                            }
                        },
                        None => n == self,
                    }
                } else {
                    r == StepResult::Continue && n == self
                },
            }
        }
    }

    fn handle_choice_input(&mut self, key: Key, config: &mut ProjectConfig) -> (r: StepResult)
        requires
            old(self).wf(),
            old(self).focus == Focus::Choice,
            old(self).configured@.len() + 8 <= usize::MAX,
        ensures
            old(self).choice_step(*final(self), *old(config), *final(config), key, r),
    {
        if key == Key::Char('q') {
            StepResult::Quit
        } else if key == Key::Down || key == Key::Char('j') {
            if self.cursor < self.choice_count() - 1 {
                self.cursor = self.cursor + 1;
            }
            StepResult::Continue
        } else if key == Key::Up || key == Key::Char('k') {
            if self.cursor > 0 {
                self.cursor = self.cursor - 1;
            }
            StepResult::Continue
        } else if key == Key::Char(' ') {
            match self.cursor_target() {
                CursorTarget::Configured(idx) => {
                    self.remove_configured(idx);
                },
                _ => {},
            }
            StepResult::Continue
        } else if key == Key::Enter || key == Key::Right || key == Key::Char('l') {
            match self.cursor_target() {
                CursorTarget::Next => {
                    if self.validate_all().is_some() {
                        return StepResult::Continue;
                    }
                    self.commit_to_config(config);
                    StepResult::Done
                },
                CursorTarget::Configured(idx) => {
                    self.expand(idx);
                    StepResult::Continue
                },
                CursorTarget::Provider(provider) => {
                    self.add_remote(provider);
                    StepResult::Continue
                },
                CursorTarget::NoRemotes => {
                    self.configured = Vec::new();
                    self.expanded = None;
                    self.commit_to_config(config);
                    assert(views(config.remotes@).len() == 0);
                    StepResult::Done
                },
            }
        } else if key == Key::Left || key == Key::Char('h') {
            if self.expanded.is_some() {
                self.collapse_persist();
                StepResult::Continue
            } else {
                StepResult::Back
            }
        } else {
            StepResult::Continue
        }
    }

    fn leave_subfield(&mut self)
        requires
            old(self).wf(),
        ensures
            old(self).after_leave(*final(self)),
    {
        self.sync_inputs_to_scratch();
        self.focus = Focus::Choice;
    }

    fn confirm_if_valid(&mut self)
        requires
            old(self).wf(),
        ensures
            old(self).after_confirm(*final(self)),
    {
        if self.validate_current_live().is_none() {
            self.collapse_persist();
        }
    }

    fn handle_subfield_input(&mut self, key: Key) -> (r: StepResult)
        requires
            old(self).wf(),
            old(self).focus is SubField,
            old(self).name_input.text().len() < usize::MAX,
            old(self).location_input.text().len() < usize::MAX,
        ensures
            old(self).subfield_step(*final(self), key, r),
    {
        let row = self.current_row();
        if key == Key::Esc {
            self.leave_subfield();
            return StepResult::Continue;
        } else if key == Key::Up {
            if self.row_cursor == 0 {
                self.leave_subfield();
            } else {
                self.row_cursor = self.row_cursor - 1;
                self.col_cursor = 0;
            }
            return StepResult::Continue;
        } else if key == Key::Down {
            if self.row_cursor + 1 < 4 {
                self.row_cursor = self.row_cursor + 1;
                self.col_cursor = 0;
            }
            return StepResult::Continue;
        } else if key == Key::Tab {
            self.advance_flattened(false);
            return StepResult::Continue;
        } else if key == Key::BackTab {
            self.advance_flattened(true);
            return StepResult::Continue;
        }
        match row {
            NavRow::Confirm => {
                if key == Key::Char('q') {
                    return StepResult::Quit;
                } else if key == Key::Char(' ') || key == Key::Enter {
                    self.confirm_if_valid();
                } else if key == Key::Char('k') {
                    if self.row_cursor > 0 {
                        self.row_cursor = self.row_cursor - 1;
                        self.col_cursor = 0;
                    }
                }
                StepResult::Continue
            },
            NavRow::Name => {
                if key == Key::Enter {
                    self.confirm_if_valid();
                    return StepResult::Continue;
                }
                // Keys that are not editing keys leave the input as it is.
                self.name_input.handle_input(key);
                self.sync_inputs_to_scratch();
                StepResult::Continue
            },
            NavRow::Location => {
                if key == Key::Enter {
                    self.confirm_if_valid();
                    return StepResult::Continue;
                }
                self.location_input.handle_input(key);
                self.sync_inputs_to_scratch();
                StepResult::Continue
            },
            NavRow::Operations => self.handle_operations_key(key),
        }
    }

    fn handle_operations_key(&mut self, key: Key) -> (r: StepResult)
        requires
            old(self).wf(),
            old(self).row_cursor == 2,
            !(key == Key::Esc || key == Key::Up || key == Key::Down || key == Key::Tab || key
                == Key::BackTab),
        ensures
            old(self).subfield_step(*final(self), key, r),
    {
        if key == Key::Char('q') {
            return StepResult::Quit;
        } else if key == Key::Left || key == Key::Char('h') {
            self.col_cursor = 0;
        } else if key == Key::Right || key == Key::Char('l') {
            self.col_cursor = 1;
        } else if key == Key::Char(' ') || key == Key::Enter {
            if let Some(idx) = self.expanded {
                let x = self.configured[idx].duplicate();
                if self.col_cursor == 0 {
                    let y = RemoteConfig {
                        provider: x.provider,
                        name: x.name,
                        location: x.location,
                        fetch: !x.fetch,
                        push: x.push,
                    };
                    self.configured.set(idx, y);
                    assert(self.remotes_v() =~= old(self).remotes_v().update(idx as int, y@));
                } else if self.col_cursor == 1 {
                    let y = RemoteConfig {
                        provider: x.provider,
                        name: x.name,
                        location: x.location,
                        fetch: x.fetch,
                        push: !x.push,
                    };
                    self.configured.set(idx, y);
                    assert(self.remotes_v() =~= old(self).remotes_v().update(idx as int, y@));
                }
            }
        }
        StepResult::Continue
    }

    /// Handles one key: on the choice list see
    /// [`RemotesHandler::choice_step`], inside a sub-panel
    /// [`RemotesHandler::subfield_step`]. The handler's invariant is kept.
    pub fn handle_input(&mut self, key: Key, config: &mut ProjectConfig) -> (r: StepResult)
        requires
            old(self).wf(),
            old(self).configured@.len() + 8 <= usize::MAX,
            old(self).name_input.text().len() < usize::MAX,
            old(self).location_input.text().len() < usize::MAX,
        ensures
            final(self).wf(),
            old(self).focus == Focus::Choice ==> old(self).choice_step(
                *final(self),
                *old(config),
                *final(config),
                key,
                r,
            ),
            old(self).focus is SubField ==> *final(config) == *old(config) && old(self).subfield_step(
                *final(self),
                key,
                r,
            ),
            old(self).focus == Focus::Browsing ==> r == StepResult::Continue && *final(self) == *old(
                self,
            ) && *final(config) == *old(config),
    {
        let r = match self.focus {
            Focus::Choice => self.handle_choice_input(key, config),
            Focus::SubField(_) => self.handle_subfield_input(key),
            Focus::Browsing => StepResult::Continue,
        };
        proof {
            self.lemma_step_keeps_wf(*old(self), *old(config), *config, key, r);
        }
        r
    }

    proof fn lemma_step_keeps_wf(
        self,
        o: RemotesHandler,
        oc: ProjectConfig,
        nc: ProjectConfig,
        key: Key,
        r: StepResult,
    )
        requires
            o.wf(),
            o.focus == Focus::Choice ==> o.choice_step(self, oc, nc, key, r),
            o.focus is SubField ==> o.subfield_step(self, key, r),
            o.focus == Focus::Browsing ==> self == o,
        ensures
            self.wf(),
    {
        lemma_nav_counts();
        assert(self.configured@.len() == self.remotes_v().len());
        assert(o.configured@.len() == o.remotes_v().len());
        if o.focus is SubField {
            if key == Key::Tab || key == Key::BackTab {
                lemma_nav_advance_in_grid(o.row_cursor, o.col_cursor, key == Key::BackTab);
            }
        }
    }
}

/// A Tab or BackTab in the sub-panel lands on one of its cells.
proof fn lemma_nav_advance_in_grid(row: usize, col: usize, backward: bool)
    ensures
        match spec_advance(nav_counts(), row, col, backward) {
            Some((r, c)) => r < 4 && c < row_width(r as int),
            None => true,
        },
{
    let counts = nav_counts();
    reveal(nav_counts);
    lemma_nav_counts();
    lemma_flat_positions_bounds(counts);
    let f = flat_positions(counts);
    crate::seqs::lemma_first_index_props(f, crate::seqs::at_cell(row, col));
    reveal_with_fuel(flat_positions, 5);
    assert(f.len() == 5);
}

/// Restoring the step from a configuration whose remotes all pass
/// validation, then pressing Enter on "Next", commits exactly the configured
/// remotes again and advances.
pub proof fn lemma_restore_then_next(
    h: RemotesHandler,
    config: ProjectConfig,
    n: RemotesHandler,
    m: RemotesHandler,
    nc: ProjectConfig,
    r: StepResult,
)
    requires
        forall|i: int| 0 <= i < config.remotes@.len() ==> spec_remote_problem(#[trigger] config.remotes@[i]@)
            is None,
        h.restored(n, config),
        n.choice_step(m, config, nc, Key::Enter, r),
    ensures
        r == StepResult::Done,
        views(nc.remotes@) == views(config.remotes@),
{
    let s = views(config.remotes@);
    assert forall|j: int| 0 <= j < s.len() implies !has_problem()(#[trigger] s[j]) by {
        assert(s[j] == config.remotes@[j]@);
    }
    lemma_first_index_absent(s, has_problem());
}

impl RemotesHandler {
    /// Tab then BackTab inside the sub-panel brings the 2-D cursor back to
    /// the cell it started on, changing nothing else.
    pub proof fn lemma_tab_then_backtab(self, n: RemotesHandler, m: RemotesHandler, r1: StepResult, r2: StepResult)
        requires
            self.wf(),
            self.focus is SubField,
            self.subfield_step(n, Key::Tab, r1),
            n.subfield_step(m, Key::BackTab, r2),
        ensures
            m == self,
    {
        self.lemma_tab_is_advance(n, r1, false);
        n.lemma_tab_is_advance(m, r2, true);
        lemma_nav_counts();
        lemma_advance_undone(nav_counts(), self, n, m);
    }

    /// BackTab then Tab inside the sub-panel brings the 2-D cursor back to
    /// the cell it started on, changing nothing else.
    pub proof fn lemma_backtab_then_tab(self, n: RemotesHandler, m: RemotesHandler, r1: StepResult, r2: StepResult)
        requires
            self.wf(),
            self.focus is SubField,
            self.subfield_step(n, Key::BackTab, r1),
            n.subfield_step(m, Key::Tab, r2),
        ensures
            m == self,
    {
        self.lemma_tab_is_advance(n, r1, true);
        n.lemma_tab_is_advance(m, r2, false);
        lemma_nav_counts();
        let counts = nav_counts();
        crate::seqs::lemma_back_then_advance(counts, self.row_cursor, self.col_cursor);
    }

    proof fn lemma_tab_is_advance(self, n: RemotesHandler, r: StepResult, backward: bool)
        requires
            self.subfield_step(n, if backward { Key::BackTab } else { Key::Tab }, r),
        ensures
            match spec_advance(nav_counts(), self.row_cursor, self.col_cursor, backward) {
                Some((rr, c)) => n == (RemotesHandler { row_cursor: rr, col_cursor: c, ..self }),
                None => n == self,
            },
    {
    }
}

/// Stepping forward and then backward through the cells of `counts` from a
/// cell comes back to it.
proof fn lemma_advance_undone(counts: Seq<usize>, a: RemotesHandler, n: RemotesHandler, m: RemotesHandler)
    requires
        counts.len() <= usize::MAX,
        a.row_cursor < counts.len(),
        a.col_cursor < counts[a.row_cursor as int],
        match spec_advance(counts, a.row_cursor, a.col_cursor, false) {
            Some((rr, c)) => n == (RemotesHandler { row_cursor: rr, col_cursor: c, ..a }),
            None => n == a,
        },
        match spec_advance(counts, n.row_cursor, n.col_cursor, true) {
            Some((rr, c)) => m == (RemotesHandler { row_cursor: rr, col_cursor: c, ..n }),
            None => m == n,
        },
    ensures
        m == a,
{
    crate::seqs::lemma_advance_then_back(counts, a.row_cursor, a.col_cursor);
}

/// A remote's planned action names the remote and its location, then its
/// operations in parentheses: "fetch" exactly when it fetches, "push"
/// exactly when it pushes, "none" exactly when it does neither.
pub proof fn lemma_remote_action_operations(r: RemoteConfigView)
    ensures
        ({
            let a = remote_action(r);
            let head = "Add remote '"@ + r.1 + "' → "@ + r.2 + " ("@;
            let ops = a.subrange(head.len() as int, a.len() - 1);
            &&& a.len() > head.len()
            &&& a.subrange(0, head.len() as int) == head
            &&& a.last() == ')'
            &&& (r.3 <==> ops.len() >= 5 && ops.subrange(0, 5) == "fetch"@)
            &&& (r.4 <==> ops.len() >= 4 && ops.subrange(ops.len() - 4, ops.len() as int) == "push"@)
            &&& (ops == "none"@ <==> !r.3 && !r.4)
        }),
{
    reveal_strlit("fetch+push");
    reveal_strlit("fetch");
    reveal_strlit("push");
    reveal_strlit("none");
    reveal_strlit(")");
    let a = remote_action(r);
    let head = "Add remote '"@ + r.1 + "' → "@ + r.2 + " ("@;
    let ops = if r.3 && r.4 {
        "fetch+push"@
    } else if r.3 {
        "fetch"@
    } else if r.4 {
        "push"@
    } else {
        "none"@
    };
    assert(a == head + ops + ")"@);
    assert(a.subrange(0, head.len() as int) =~= head);
    assert(a.subrange(head.len() as int, a.len() - 1) =~= ops);
    assert(a.last() == ')');
    assert("fetch+push"@.subrange(0, 5) =~= "fetch"@);
    assert("fetch"@.subrange(0, 5) =~= "fetch"@);
    assert("push"@.subrange(0, 4) =~= "push"@);
    assert("fetch"@.len() == 5 && "push"@.len() == 4 && "none"@.len() == 4 && "fetch+push"@.len() == 10);
    assert(ops.len() >= 5 ==> (ops == "fetch"@ || ops == "fetch+push"@));
    assert("fetch+push"@.subrange(6, 10) =~= "push"@);
    assert("fetch"@.subrange(1, 5) != "push"@) by {
        assert("fetch"@.subrange(1, 5)[0] == 'e');
    }
    assert("push"@ != "none"@) by {
        assert("push"@[0] != "none"@[0]);
    }
    assert("fetch"@ != "none"@) by {
        assert("fetch"@[0] != "none"@[0]);
    }
    assert("fetch+push"@ != "none"@) by {
        assert("fetch+push"@.len() != "none"@.len());
    }
    assert("none"@.subrange(0, 4) != "push"@) by {
        assert("none"@[0] != "push"@[0]);
    }
}

} // verus!
