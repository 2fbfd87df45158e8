//! The Database step: tick databases, and per database pick how it runs, the
//! drivers for the languages chosen earlier, and a port, in an expandable
//! sub-panel.

use vstd::prelude::*;

use crate::config::{
    drivers_view, views, Database, DatabaseConfig, DatabaseConfigView, Language, ProjectConfig,
    RunMode,
};
use crate::db_registry::{
    driver_by_id, find_driver, spec_all_drivers, spec_database_spec, spec_for, DatabaseSpec,
    DatabaseSpecView, GroupView,
};
use crate::seqs::{
    advance_flat, at_cell, first_index_by, flat_positions, lemma_first_index_absent,
    lemma_first_index_found, lemma_first_index_props, lemma_flat_positions_bounds, spec_advance,
};
use crate::steps::languages::clamped;
use crate::steps::{Focus, Key, StepResult};
use crate::text::{append, concat, extend_strings, join, joined};
use crate::validate::{message_view, spec_port_problem};
use crate::widgets::text_input::{edited, TextInput};

pub use crate::validate::port_problem;

verus! {

/// Label of the port input.
pub const PORT_LABEL: &'static str = "Port";

/// The databases offered, in display order (row `i + 1` of the choice list).
pub open spec fn spec_db_choices() -> Seq<Database> {
    seq![Database::PostgreSQL, Database::MySQL, Database::SQLite, Database::MongoDB, Database::Redis]
}

/// Number of databases offered.
pub fn db_choice_count() -> (r: usize)
    ensures
        r == spec_db_choices().len(),
{
    5
}

/// The `i`-th database offered.
pub fn db_choice(i: usize) -> (r: Database)
    requires
        i < spec_db_choices().len(),
    ensures
        r == spec_db_choices()[i as int],
{
    match i {
        0 => Database::PostgreSQL,
        1 => Database::MySQL,
        2 => Database::SQLite,
        3 => Database::MongoDB,
        _ => Database::Redis,
    }
}

/// The run modes, in the order of the run-mode radio row.
pub open spec fn spec_run_modes() -> Seq<RunMode> {
    seq![RunMode::Docker, RunMode::Native, RunMode::Managed]
}

/// Position of a run mode on the radio row.
pub open spec fn run_mode_pos(m: RunMode) -> int {
    match m {
        RunMode::Docker => 0,
        RunMode::Native => 1,
        RunMode::Managed => 2,
    }
}

/// Position of a run mode on the radio row.
pub fn run_mode_index(m: RunMode) -> (r: usize)
    ensures
        r == run_mode_pos(m),
        r < spec_run_modes().len(),
        spec_run_modes()[r as int] == m,
{
    match m {
        RunMode::Docker => 0,
        RunMode::Native => 1,
        RunMode::Managed => 2,
    }
}

/// The run mode at position `i` of the radio row.
pub fn run_mode_at(i: usize) -> (r: RunMode)
    requires
        i < spec_run_modes().len(),
    ensures
        r == spec_run_modes()[i as int],
        run_mode_pos(r) == i,
{
    match i {
        0 => RunMode::Docker,
        1 => RunMode::Native,
        _ => RunMode::Managed,
    }
}

/// One interactive row of an expanded database's sub-panel.
#[derive(Debug, Clone, Copy, PartialEq, Eq, Structural)]
pub enum DbNavRow {
    /// The Docker / Native / Managed radio row (server databases only).
    RunMode,
    /// The driver checkboxes of catalog group `group_idx`, for `language`.
    Drivers { language: Language, group_idx: usize },
    /// The port input (databases with a default port only).
    Port,
    /// The Confirm button that closes the sub-panel.
    Confirm,
}

/// Driver rows for the first `n` catalog groups: a group gets a row when its
/// language was chosen upstream and it has drivers.
pub open spec fn driver_rows(groups: Seq<GroupView>, upstream: Seq<Language>, n: nat) -> Seq<DbNavRow>
    decreases n,
{
    if n == 0 {
        Seq::empty()
    } else {
        let prev = driver_rows(groups, upstream, (n - 1) as nat);
        let g = groups[n - 1];
        if upstream.contains(g.0) && g.1.len() > 0 {
            prev.push(DbNavRow::Drivers { language: g.0, group_idx: (n - 1) as usize })
        } else {
            prev
        }
    }
}

/// The rows of a database's sub-panel: the run-mode row when the database
/// has run modes, a driver row per catalog group whose language was chosen
/// upstream, the port row when the database has a default port, and always
/// a final Confirm.
pub open spec fn spec_db_nav_rows(spec: DatabaseSpecView, upstream: Seq<Language>) -> Seq<DbNavRow> {
    (if spec.1 {
        seq![DbNavRow::RunMode]
    } else {
        Seq::empty()
    }) + driver_rows(spec.2, upstream, spec.2.len()) + (if spec.0 is Some {
        seq![DbNavRow::Port]
    } else {
        Seq::empty()
    }) + seq![DbNavRow::Confirm]
}

/// A row that refers only to what the catalog entry holds.
pub open spec fn db_row_valid(row: DbNavRow, spec: DatabaseSpecView) -> bool {
    match row {
        DbNavRow::Drivers { language, group_idx } => group_idx < spec.2.len() && spec.2[group_idx as int].0
            == language && spec.2[group_idx as int].1.len() > 0,
        _ => true,
    }
}

impl DbNavRow {
    /// How many columns the row has.
    pub open spec fn spec_col_count(self, spec: DatabaseSpecView) -> int {
        match self {
            DbNavRow::RunMode => 3,
            DbNavRow::Drivers { group_idx, .. } => spec.2[group_idx as int].1.len() as int,
            _ => 1,
        }
    }

    /// How many columns the row has.
    pub fn col_count(&self, spec: &DatabaseSpec) -> (r: usize)
        requires
            db_row_valid(*self, spec@),
        ensures
            r == self.spec_col_count(spec@),
    {
        match self {
            DbNavRow::RunMode => 3,
            DbNavRow::Drivers { group_idx, .. } => spec.driver_groups[*group_idx].drivers.len(),
            _ => 1,
        }
    }
}

proof fn lemma_driver_rows(groups: Seq<GroupView>, upstream: Seq<Language>, n: nat)
    requires
        n <= groups.len(),
        groups.len() <= usize::MAX,
        forall|g: int| 0 <= g < groups.len() ==> (#[trigger] groups[g]).1.len() <= usize::MAX,
    ensures
        driver_rows(groups, upstream, n).len() <= n,
        forall|k: int|
            0 <= k < driver_rows(groups, upstream, n).len() ==> {
                &&& db_row_valid(
                    #[trigger] driver_rows(groups, upstream, n)[k],
                    (None, false, groups),
                )
                &&& driver_rows(groups, upstream, n)[k] is Drivers
                &&& 1 <= driver_rows(groups, upstream, n)[k].spec_col_count((None, false, groups))
                    <= usize::MAX
            },
    decreases n,
{
    if n > 0 {
        lemma_driver_rows(groups, upstream, (n - 1) as nat);
        let prev = driver_rows(groups, upstream, (n - 1) as nat);
        let all = driver_rows(groups, upstream, n);
        assert forall|k: int| 0 <= k < all.len() implies {
            &&& db_row_valid(#[trigger] all[k], (None, false, groups))
            &&& all[k] is Drivers
            &&& 1 <= all[k].spec_col_count((None, false, groups)) <= usize::MAX
        } by {
            if k < prev.len() {
                assert(all[k] == prev[k]);
            }
        }
    }
}

/// The rows of a database's sub-panel are valid cells of its catalog entry:
/// each has between one and `usize::MAX` columns; there are at most three
/// more rows than catalog groups; the last is Confirm; the first is the
/// run-mode row exactly when the database has run modes.
pub proof fn lemma_db_nav_rows_valid(spec: DatabaseSpecView, upstream: Seq<Language>)
    requires
        spec.2.len() <= usize::MAX,
        forall|g: int| 0 <= g < spec.2.len() ==> (#[trigger] spec.2[g]).1.len() <= usize::MAX,
    ensures
        spec_db_nav_rows(spec, upstream).len() >= 1,
        spec_db_nav_rows(spec, upstream).len() <= spec.2.len() + 3,
        spec_db_nav_rows(spec, upstream).last() == DbNavRow::Confirm,
        spec.1 <==> spec_db_nav_rows(spec, upstream)[0] == DbNavRow::RunMode,
        forall|k: int|
            0 <= k < spec_db_nav_rows(spec, upstream).len() ==> db_row_valid(
                #[trigger] spec_db_nav_rows(spec, upstream)[k],
                spec,
            ) && 1 <= spec_db_nav_rows(spec, upstream)[k].spec_col_count(spec) <= usize::MAX,
{
    let groups = spec.2;
    lemma_driver_rows(groups, upstream, groups.len());
    let head: Seq<DbNavRow> = if spec.1 {
        seq![DbNavRow::RunMode]
    } else {
        Seq::empty()
    };
    let mid = driver_rows(groups, upstream, groups.len());
    let tail: Seq<DbNavRow> = if spec.0 is Some {
        seq![DbNavRow::Port]
    } else {
        Seq::empty()
    };
    let rows = spec_db_nav_rows(spec, upstream);
    assert(rows == head + mid + tail + seq![DbNavRow::Confirm]);
    assert forall|k: int| 0 <= k < rows.len() implies db_row_valid(#[trigger] rows[k], spec) && 1
        <= rows[k].spec_col_count(spec) <= usize::MAX by {
        if head.len() <= k < head.len() + mid.len() {
            assert(rows[k] == mid[k - head.len()]);
            assert(db_row_valid(mid[k - head.len()], (None, false, groups)));
        }
    }
    if !spec.1 && mid.len() > 0 {
        assert(rows[0] == mid[0]);
        assert(mid[0] is Drivers);
    }
}

/// Every catalog group has between one and four drivers; an entry has at
/// most two groups.
pub proof fn lemma_db_catalog_bounds(db: Database)
    ensures
        spec_database_spec(db).2.len() <= 2,
        forall|g: int|
            0 <= g < spec_database_spec(db).2.len() ==> 1 <= (#[trigger] spec_database_spec(
                db,
            ).2[g]).1.len() <= 4,
{
}

/// The rows of a database's sub-panel (see [`spec_db_nav_rows`]).
pub fn db_nav_rows(spec: &DatabaseSpec, upstream: &Vec<Language>) -> (r: Vec<DbNavRow>)
    ensures
        r@ == spec_db_nav_rows(spec@, upstream@),
{
    let mut rows: Vec<DbNavRow> = Vec::new();
    if spec.supports_run_mode {
        rows.push(DbNavRow::RunMode);
    }
    let ghost head = rows@;
    let groups = &spec.driver_groups;
    let mut i: usize = 0;
    while i < groups.len()
        invariant
            i <= groups.len(),
            views(groups@) == spec@.2,
            rows@ == head + driver_rows(spec@.2, upstream@, i as nat),
        decreases groups.len() - i,
    {
        let g = &groups[i];
        assert(spec@.2[i as int] == g@);
        if contains_language(upstream, g.language) && g.drivers.len() > 0 {
            rows.push(DbNavRow::Drivers { language: g.language, group_idx: i });
        }
        i = i + 1;
        assert(rows@ =~= head + driver_rows(spec@.2, upstream@, i as nat));
    }
    if spec.default_port.is_some() {
        rows.push(DbNavRow::Port);
    }
    rows.push(DbNavRow::Confirm);
    assert(rows@ =~= spec_db_nav_rows(spec@, upstream@));
    rows
}

/// Whether `lang` is one of `langs`.
pub fn contains_language(langs: &Vec<Language>, lang: Language) -> (r: bool)
    ensures
        r == langs@.contains(lang),
{
    let mut i: usize = 0;
    while i < langs.len()
        invariant
            i <= langs.len(),
            forall|j: int| 0 <= j < i ==> langs@[j] != lang,
        decreases langs.len() - i,
    {
        if langs[i] == lang {
            assert(langs@[i as int] == lang);
            return true;
        }
        i = i + 1;
    }
    false
}

/// Whether a database configuration is for `db`.
pub open spec fn for_database(db: Database) -> spec_fn(DatabaseConfigView) -> bool {
    |c: DatabaseConfigView| c.0 == db
}

/// The index of the first scratch entry for `db`, or -1.
pub open spec fn db_scratch_pos(s: Seq<DatabaseConfigView>, db: Database) -> int {
    first_index_by(s, for_database(db))
}

/// A fresh configuration for `db`: Docker when it has run modes, no
/// drivers, the default port.
pub open spec fn fresh_config(db: Database) -> DatabaseConfigView {
    (
        db,
        if spec_database_spec(db).1 {
            Some(RunMode::Docker)
        } else {
            None
        },
        Seq::empty(),
        Seq::empty(),
    )
}

/// The scratch list, with a fresh entry for `db` appended if it has none.
pub open spec fn db_ensured(s: Seq<DatabaseConfigView>, db: Database) -> Seq<DatabaseConfigView> {
    if db_scratch_pos(s, db) >= 0 {
        s
    } else {
        s.push(fresh_config(db))
    }
}

/// The index of `db`'s entry in [`db_ensured`].
pub open spec fn db_ensured_pos(s: Seq<DatabaseConfigView>, db: Database) -> int {
    db_scratch_pos(db_ensured(s, db), db)
}

/// `db`'s entry in [`db_ensured`].
pub open spec fn db_entry(s: Seq<DatabaseConfigView>, db: Database) -> DatabaseConfigView {
    db_ensured(s, db)[db_ensured_pos(s, db)]
}

/// The scratch list with `db`'s entry (created if needed) replaced by `e`.
pub open spec fn with_db_entry(s: Seq<DatabaseConfigView>, db: Database, e: DatabaseConfigView) -> Seq<
    DatabaseConfigView,
> {
    db_ensured(s, db).update(db_ensured_pos(s, db), e)
}

/// The scratch list with `db`'s port set to `text`.
pub open spec fn with_port(s: Seq<DatabaseConfigView>, db: Database, text: Seq<char>) -> Seq<
    DatabaseConfigView,
> {
    let e = db_entry(s, db);
    with_db_entry(s, db, (e.0, e.1, e.2, text))
}

/// The port typed for `db`: its scratch entry's port, empty without one.
pub open spec fn port_of(s: Seq<DatabaseConfigView>, db: Database) -> Seq<char> {
    if db_scratch_pos(s, db) >= 0 {
        s[db_scratch_pos(s, db)].3
    } else {
        Seq::empty()
    }
}

/// Whether the port typed for a database is rejected.
pub open spec fn has_port_problem(s: Seq<DatabaseConfigView>) -> spec_fn(Database) -> bool {
    |d: Database| spec_port_problem(port_of(s, d)) is Some
}

/// The warning for the first ticked database (in tick order) whose port is
/// rejected: its name, ": " and the problem; `None` when every port is fine.
pub open spec fn spec_selected_port_problem(selected: Seq<Database>, s: Seq<DatabaseConfigView>) -> Option<
    Seq<char>,
> {
    let i = first_index_by(selected, has_port_problem(s));
    if i >= 0 {
        Some(
            selected[i].spec_label() + ": "@ + spec_port_problem(port_of(s, selected[i]))->0,
        )
    } else {
        None
    }
}

/// Every ticked database has a scratch entry.
pub open spec fn all_have_scratch(selected: Seq<Database>, s: Seq<DatabaseConfigView>) -> bool {
    forall|i: int| 0 <= i < selected.len() ==> db_scratch_pos(s, #[trigger] selected[i]) >= 0
}

/// The configurations committed for the ticked databases: each one's first
/// scratch entry, in tick order.
pub open spec fn db_committed(selected: Seq<Database>, s: Seq<DatabaseConfigView>) -> Seq<
    DatabaseConfigView,
> {
    selected.map_values(|d: Database| s[db_scratch_pos(s, d)])
}

/// The drivers of `d` whose language is in `up`, in order.
pub open spec fn scoped_drivers(d: Seq<(Language, Seq<char>)>, up: Seq<Language>) -> Seq<
    (Language, Seq<char>),
>
    decreases d.len(),
{
    if d.len() == 0 {
        Seq::empty()
    } else if up.contains(d.last().0) {
        scoped_drivers(d.drop_last(), up).push(d.last())
    } else {
        scoped_drivers(d.drop_last(), up)
    }
}

/// A configuration as the step keeps it for the languages `up`: only the
/// drivers of those languages, and no run mode for a database that has
/// none.
pub open spec fn normalized(e: DatabaseConfigView, up: Seq<Language>) -> DatabaseConfigView {
    (
        e.0,
        if spec_database_spec(e.0).1 {
            e.1
        } else {
            None
        },
        scoped_drivers(e.2, up),
        e.3,
    )
}

/// Each configuration normalized (see [`normalized`]).
pub open spec fn normalized_all(s: Seq<DatabaseConfigView>, up: Seq<Language>) -> Seq<DatabaseConfigView> {
    s.map_values(|e: DatabaseConfigView| normalized(e, up))
}

/// The kept drivers are drivers of `d` for languages in `up`; when every
/// driver of `d` already is, all are kept.
pub proof fn lemma_scoped_drivers(d: Seq<(Language, Seq<char>)>, up: Seq<Language>)
    ensures
        forall|j: int|
            0 <= j < scoped_drivers(d, up).len() ==> up.contains(#[trigger] scoped_drivers(d, up)[j].0)
                && d.contains(scoped_drivers(d, up)[j]),
        (forall|j: int| 0 <= j < d.len() ==> up.contains(#[trigger] d[j].0)) ==> scoped_drivers(d, up)
            == d,
    decreases d.len(),
{
    if d.len() > 0 {
        let p = d.drop_last();
        lemma_scoped_drivers(p, up);
        let sp = scoped_drivers(p, up);
        let sd = scoped_drivers(d, up);
        assert forall|j: int| 0 <= j < sd.len() implies up.contains(#[trigger] sd[j].0) && d.contains(
            sd[j],
        ) by {
            if up.contains(d.last().0) {
                assert(sd == sp.push(d.last()));
            } else {
                assert(sd == sp);
            }
            if j < sp.len() {
                assert(sd[j] == sp[j]);
                assert(up.contains(sp[j].0));
                assert(p.contains(sp[j]));
                let w = choose|w: int| 0 <= w < p.len() && p[w] == sp[j];
                assert(d[w] == p[w]);
            } else {
                assert(sd[j] == d.last());
                assert(d[d.len() - 1] == d.last());
            }
        }
        if forall|j: int| 0 <= j < d.len() ==> up.contains(#[trigger] d[j].0) {
            assert forall|j: int| 0 <= j < p.len() implies up.contains(#[trigger] p[j].0) by {
                assert(p[j] == d[j]);
            }
            assert(up.contains(d[d.len() - 1].0));
            assert(sp.push(d.last()) =~= d);
        }
    }
}

/// A normalized configuration is as the step keeps it, and normalizing it
/// again changes nothing; a configuration already so is its own
/// normalization.
pub proof fn lemma_normalized(e: DatabaseConfigView, up: Seq<Language>)
    ensures
        entry_ok(normalized(e, up), up),
        normalized(normalized(e, up), up) == normalized(e, up),
        entry_ok(e, up) ==> normalized(e, up) == e,
{
    lemma_scoped_drivers(e.2, up);
    lemma_scoped_drivers(scoped_drivers(e.2, up), up);
}

/// The language of each configured language, in order.
pub open spec fn config_languages(config: ProjectConfig) -> Seq<Language> {
    config.language_configs@.map_values(|c: crate::config::LanguageConfig| c.language)
}

proof fn lemma_db_ensured(s: Seq<DatabaseConfigView>, db: Database)
    ensures
        0 <= db_ensured_pos(s, db) < db_ensured(s, db).len(),
        db_ensured(s, db)[db_ensured_pos(s, db)].0 == db,
        db_scratch_pos(s, db) >= 0 ==> db_ensured_pos(s, db) == db_scratch_pos(s, db),
        db_scratch_pos(s, db) < 0 ==> db_ensured_pos(s, db) == s.len(),
        db_scratch_pos(s, db) < 0 ==> db_entry(s, db) == fresh_config(db),
{
    lemma_first_index_props(s, for_database(db));
    if db_scratch_pos(s, db) < 0 {
        let e = s.push(fresh_config(db));
        assert forall|j: int| 0 <= j < s.len() implies !for_database(db)(#[trigger] e[j]) by {
            assert(e[j] == s[j]);
        }
        lemma_first_index_found(e, for_database(db), s.len() as int);
    }
}

/// Input state of the Database step.
#[derive(Debug)]
pub struct DatabaseHandler {
    /// Choice row: 0 is "Next", `i + 1` is the `i`-th database offered.
    pub cursor: usize,
    /// Ticked databases, in the order they were ticked.
    pub selected: Vec<Database>,
    /// The database whose sub-panel is open.
    pub expanded: Option<Database>,
    pub focus: Focus,
    /// Row of the open sub-panel.
    pub row_cursor: usize,
    /// Column within that row.
    pub col_cursor: usize,
    pub port_input: TextInput,
    /// Per-database choices, kept while a database is unticked so that
    /// ticking it again restores them.
    pub scratch: Vec<DatabaseConfig>,
    /// The languages chosen in the Languages step, refreshed from the
    /// configuration on every key.
    pub upstream_languages: Vec<Language>,
}

impl DatabaseHandler {
    /// The scratch entries, as values.
    pub open spec fn scratch_v(&self) -> Seq<DatabaseConfigView> {
        views(self.scratch@)
    }

    /// The catalog entry of the open database.
    pub open spec fn open_spec(&self) -> DatabaseSpecView {
        spec_database_spec(self.expanded->0)
    }

    /// The rows the open sub-panel has for the upstream languages `up`
    /// (none when nothing is open).
    pub open spec fn rows_for(&self, up: Seq<Language>) -> Seq<DbNavRow> {
        match self.expanded {
            Some(db) => spec_db_nav_rows(spec_database_spec(db), up),
            None => Seq::empty(),
        }
    }

    /// The rows of the open sub-panel (none when nothing is open).
    pub open spec fn rows(&self) -> Seq<DbNavRow> {
        self.rows_for(self.upstream_languages@)
    }

    /// The scratch entries with the port input's content written into the
    /// open database's entry.
    pub open spec fn synced(&self) -> Seq<DatabaseConfigView> {
        match self.expanded {
            Some(db) => with_port(self.scratch_v(), db, self.port_input.text()),
            None => self.scratch_v(),
        }
    }

    /// The run mode shown for the open database: its entry's, Docker when
    /// it has none (or nothing is open).
    pub open spec fn spec_run_mode(&self) -> RunMode {
        match self.expanded {
            Some(db) => if db_scratch_pos(self.scratch_v(), db) >= 0 {
                match self.scratch_v()[db_scratch_pos(self.scratch_v(), db)].1 {
                    Some(m) => m,
                    None => RunMode::Docker,
                }
            } else {
                RunMode::Docker
            },
            None => RunMode::Docker,
        }
    }

    /// The state the handler keeps: the choice cursor is on a row, and while
    /// a sub-panel has focus its 2-D cursor is on one of its cells.
    pub open spec fn wf(&self) -> bool {
        self.wf_for(self.upstream_languages@)
    }

    /// [`DatabaseHandler::wf`], with the rows laid out for the upstream
    /// languages `up`.
    pub open spec fn wf_for(&self, up: Seq<Language>) -> bool {
        &&& self.cursor <= spec_db_choices().len()
        &&& all_have_scratch(self.selected@, self.scratch_v())
        &&& (self.focus is SubField && self.expanded is Some) ==> {
            &&& self.row_cursor < self.rows_for(up).len()
            &&& self.col_cursor < self.rows_for(up)[self.row_cursor as int].spec_col_count(
                self.open_spec(),
            )
        }
    }

    /// Takes the chosen languages from the configuration.
    pub fn refresh_upstream(&mut self, config: &ProjectConfig)
        ensures
            final(self).upstream_languages@ == config_languages(*config),
            *final(self) == (DatabaseHandler {
                upstream_languages: final(self).upstream_languages,
                ..*old(self)
            }),
    {
        let mut langs: Vec<Language> = Vec::new();
        let mut i: usize = 0;
        while i < config.language_configs.len()
            invariant
                i <= config.language_configs.len(),
                langs@ == config_languages(*config).take(i as int),
            decreases config.language_configs.len() - i,
        {
            langs.push(config.language_configs[i].language);
            i = i + 1;
            assert(langs@ =~= config_languages(*config).take(i as int));
        }
        assert(config_languages(*config).take(i as int) =~= config_languages(*config));
        self.upstream_languages = langs;
    }

    /// The state [`DatabaseHandler::restore_from_config`] leaves.
    pub open spec fn restored(self, n: DatabaseHandler, config: ProjectConfig) -> bool {
        &&& n.upstream_languages@ == config_languages(config)
        &&& n.selected@ == config.database_configs@.map_values(|c: DatabaseConfig| c.database)
        &&& n.scratch_v() == views(config.database_configs@)
        &&& n.cursor == 0
        &&& n.expanded is None
        &&& n.focus == Focus::Choice
        &&& n.row_cursor == 0
        &&& n.col_cursor == 0
        &&& n.port_input.text().len() == 0
        &&& n.port_input.pos() == 0
        &&& n.port_input.title() == PORT_LABEL@
    }

    /// Restores the step from the configuration when navigating back: the
    /// configured databases become the ticked ones and their configurations
    /// the scratch entries; everything else is reset.
    pub fn restore_from_config(&mut self, config: &ProjectConfig)
        ensures
            old(self).restored(*final(self), *config),
            final(self).wf(),
    {
        self.refresh_upstream(config);
        let mut selected: Vec<Database> = Vec::new();
        let mut scratch: Vec<DatabaseConfig> = Vec::new();
        let mut i: usize = 0;
        while i < config.database_configs.len()
            invariant
                i <= config.database_configs.len(),
                selected@ == config.database_configs@.take(i as int).map_values(
                    |c: DatabaseConfig| c.database,
                ),
                views(scratch@) == views(config.database_configs@.take(i as int)),
            decreases config.database_configs.len() - i,
        {
            let ghost prev = scratch@;
            selected.push(config.database_configs[i].database);
            let d = config.database_configs[i].duplicate();
            scratch.push(d);
            assert(views(scratch@) =~= views(prev).push(d@));
            assert(views(config.database_configs@.take(i + 1)) =~= views(
                config.database_configs@.take(i as int),
            ).push(config.database_configs@[i as int]@));
            i = i + 1;
            assert(selected@ =~= config.database_configs@.take(i as int).map_values(
                |c: DatabaseConfig| c.database,
            ));
        }
        assert(config.database_configs@.take(i as int) =~= config.database_configs@);
        self.selected = selected;
        self.scratch = scratch;
        self.cursor = 0;
        self.expanded = None;
        self.focus = Focus::Choice;
        self.row_cursor = 0;
        self.col_cursor = 0;
        self.port_input = TextInput::new(PORT_LABEL);
        proof {
            let sv = self.scratch_v();
            assert forall|k: int| 0 <= k < self.selected@.len() implies db_scratch_pos(
                sv,
                #[trigger] self.selected@[k],
            ) >= 0 by {
                assert(sv[k].0 == self.selected@[k]);
                lemma_first_index_props(sv, for_database(self.selected@[k]));
                assert(for_database(self.selected@[k])(sv[k]));
            }
        }
    }

    /// Whether `db` is ticked.
    pub fn is_selected(&self, db: Database) -> (r: bool)
        ensures
            r == self.selected@.contains(db),
    {
        let mut i: usize = 0;
        while i < self.selected.len()
            invariant
                i <= self.selected.len(),
                forall|j: int| 0 <= j < i ==> self.selected@[j] != db,
            decreases self.selected.len() - i,
        {
            if self.selected[i] == db {
                assert(self.selected@[i as int] == db);
                return true;
            }
            i = i + 1;
        }
        false
    }

    fn scratch_index(&self, db: Database) -> (r: Option<usize>)
        ensures
            match r {
                Some(i) => i == db_scratch_pos(self.scratch_v(), db) && i < self.scratch@.len(),
                None => db_scratch_pos(self.scratch_v(), db) < 0,
            },
    {
        let ghost s = self.scratch_v();
        let mut i: usize = 0;
        while i < self.scratch.len()
            invariant
                i <= self.scratch.len(),
                s == self.scratch_v(),
                forall|j: int| 0 <= j < i ==> !for_database(db)(#[trigger] s[j]),
            decreases self.scratch.len() - i,
        {
            if self.scratch[i].database == db {
                assert(for_database(db)(s[i as int]));
                proof {
                    lemma_first_index_found(s, for_database(db), i as int);
                }
                return Some(i);
            }
            assert(!for_database(db)(s[i as int]));
            i = i + 1;
        }
        proof {
            lemma_first_index_absent(s, for_database(db));
        }
        None
    }

    /// The scratch entry for `db`, if there is one.
    pub fn scratch_for(&self, db: Database) -> (r: Option<&DatabaseConfig>)
        ensures
            match r {
                Some(c) => db_scratch_pos(self.scratch_v(), db) >= 0 && c@ == self.scratch_v()[db_scratch_pos(
                    self.scratch_v(),
                    db,
                )],
                None => db_scratch_pos(self.scratch_v(), db) < 0,
            },
    {
        match self.scratch_index(db) {
            Some(i) => Some(&self.scratch[i]),
            None => None,
        }
    }

    /// Makes sure `db` has a scratch entry and returns its index.
    fn ensure_scratch(&mut self, db: Database) -> (r: usize)
        ensures
            final(self).scratch_v() == db_ensured(old(self).scratch_v(), db),
            r == db_ensured_pos(old(self).scratch_v(), db),
            r < final(self).scratch@.len(),
            *final(self) == (DatabaseHandler { scratch: final(self).scratch, ..*old(self) }),
    {
        proof {
            lemma_db_ensured(self.scratch_v(), db);
        }
        match self.scratch_index(db) {
            Some(i) => i,
            None => {
                let spec = spec_for(db);
                let fresh = DatabaseConfig::default_for(db, spec.supports_run_mode);
                assert(drivers_view(fresh.drivers@) =~= Seq::<(Language, Seq<char>)>::empty());
                assert(fresh.port@ =~= Seq::<char>::empty());
                assert(fresh@ == fresh_config(db));
                self.scratch.push(fresh);
                assert(self.scratch_v() =~= db_ensured(old(self).scratch_v(), db));
                self.scratch.len() - 1
            },
        }
    }

    /// The scratch entry for `db`, created fresh (see [`fresh_config`]) if
    /// it has none.
    pub fn scratch_mut_for(&mut self, db: Database) -> (r: &mut DatabaseConfig)
        ensures
            (*r)@ == db_entry(old(self).scratch_v(), db),
            final(self).scratch@.len() == db_ensured(old(self).scratch_v(), db).len(),
            final(self).scratch@[db_ensured_pos(old(self).scratch_v(), db)] == *final(r),
            forall|j: int|
                0 <= j < final(self).scratch@.len() && j != db_ensured_pos(old(self).scratch_v(), db)
                    ==> (#[trigger] final(self).scratch@[j])@ == db_ensured(old(self).scratch_v(), db)[j],
            *final(self) == (DatabaseHandler { scratch: final(self).scratch, ..*old(self) }),
    {
        let i = self.ensure_scratch(db);
        &mut self.scratch[i]
    }

    /// Replaces `db`'s scratch entry (created if needed) by `entry`.
    fn set_entry(&mut self, db: Database, entry: DatabaseConfig)
        requires
            entry.database == db,
        ensures
            final(self).scratch_v() == with_db_entry(old(self).scratch_v(), db, entry@),
            *final(self) == (DatabaseHandler { scratch: final(self).scratch, ..*old(self) }),
    {
        proof {
            lemma_db_ensured(self.scratch_v(), db);
        }
        let i = self.ensure_scratch(db);
        self.scratch.set(i, entry);
        assert(self.scratch_v() =~= with_db_entry(old(self).scratch_v(), db, entry@));
    }

    /// Writes the port input into the open database's scratch entry.
    pub fn sync_port_to_scratch(&mut self)
        ensures
            final(self).scratch_v() == old(self).synced(),
            *final(self) == (DatabaseHandler { scratch: final(self).scratch, ..*old(self) }),
            old(self).entries_kept(*final(self)),
    {
        proof {
            lemma_keeps_entries_refl(self.scratch_v());
            if let Some(db) = self.expanded {
                lemma_entry_writes_keep(self.scratch_v(), db);
                lemma_db_ensured(self.scratch_v(), db);
            }
        }
        if let Some(db) = self.expanded {
            proof {
                lemma_db_ensured(self.scratch_v(), db);
            }
            let i = self.ensure_scratch(db);
            let old_entry = self.scratch[i].duplicate();
            let value = self.port_input.value();
            let entry = DatabaseConfig {
                database: old_entry.database,
                run_mode: old_entry.run_mode,
                drivers: old_entry.drivers,
                port: value,
            };
            self.scratch.set(i, entry);
            assert(self.scratch_v() =~= old(self).synced());
        }
    }

    /// Writes the port input back and closes the sub-panel; focus returns to
    /// the choice list.
    pub fn collapse_persist(&mut self)
        ensures
            final(self).scratch_v() == old(self).synced(),
            *final(self) == (DatabaseHandler {
                scratch: final(self).scratch,
                expanded: None,
                focus: Focus::Choice,
                ..*old(self)
            }),
    {
        self.sync_port_to_scratch();
        self.expanded = None;
        self.focus = Focus::Choice;
    }

    /// Writes the port input back, keeping the sub-panel open.
    pub fn collapse_persist_keep_expanded(&mut self)
        ensures
            final(self).scratch_v() == old(self).synced(),
            *final(self) == (DatabaseHandler { scratch: final(self).scratch, ..*old(self) }),
    {
        self.sync_port_to_scratch();
    }

    /// Commits the ticked databases to the configuration, in tick order,
    /// each with its scratch entry (after writing the port input back).
    /// Every ticked database must have a scratch entry by then.
    pub fn commit_to_config(&mut self, config: &mut ProjectConfig)
        requires
            all_have_scratch(old(self).selected@, old(self).synced()),
        ensures
            final(self).scratch_v() == old(self).synced(),
            *final(self) == (DatabaseHandler { scratch: final(self).scratch, ..*old(self) }),
            views(final(config).database_configs@) == normalized_all(
                db_committed(old(self).selected@, old(self).synced()),
                old(self).upstream_languages@,
            ),
            *final(config) == (ProjectConfig {
                database_configs: final(config).database_configs,
                ..*old(config)
            }),
    {
        self.sync_port_to_scratch();
        let mut new_configs: Vec<DatabaseConfig> = Vec::new();
        let mut i: usize = 0;
        while i < self.selected.len()
            invariant
                i <= self.selected.len(),
                all_have_scratch(self.selected@, self.scratch_v()),
                views(new_configs@) == normalized_all(
                    db_committed(self.selected@.take(i as int), self.scratch_v()),
                    self.upstream_languages@,
                ),
            decreases self.selected.len() - i,
        {
            let db = self.selected[i];
            assert(db_scratch_pos(self.scratch_v(), self.selected@[i as int]) >= 0);
            let idx = match self.scratch_index(db) {
                Some(idx) => idx,
                None => {
                    return;
                },
            };
            let cfg = normalize_config(&self.scratch[idx], &self.upstream_languages);
            let ghost prev = new_configs@;
            new_configs.push(cfg);
            assert(views(new_configs@) =~= views(prev).push(cfg@));
            assert(db_committed(self.selected@.take(i + 1), self.scratch_v()) =~= db_committed(
                self.selected@.take(i as int),
                self.scratch_v(),
            ).push(db_committed(self.selected@, self.scratch_v())[i as int]));
            assert(normalized_all(db_committed(self.selected@.take(i + 1), self.scratch_v()), self.upstream_languages@)
                =~= normalized_all(
                db_committed(self.selected@.take(i as int), self.scratch_v()),
                self.upstream_languages@,
            ).push(normalized(db_committed(self.selected@, self.scratch_v())[i as int], self.upstream_languages@)));
            i = i + 1;
        }
        assert(self.selected@.take(i as int) =~= self.selected@);
        config.database_configs = new_configs;
    }
}

/// `c` normalized for the languages `up` (see [`normalized`]): the drivers
/// of other languages dropped, and the run mode cleared for a database that
/// has none.
pub fn normalize_config(c: &DatabaseConfig, up: &Vec<Language>) -> (r: DatabaseConfig)
    ensures
        r@ == normalized(c@, up@),
{
    let ghost d = drivers_view(c.drivers@);
    let mut drivers: Vec<(Language, &'static str)> = Vec::new();
    let mut i: usize = 0;
    while i < c.drivers.len()
        invariant
            i <= c.drivers.len(),
            d == drivers_view(c.drivers@),
            drivers_view(drivers@) == scoped_drivers(d.take(i as int), up@),
        decreases c.drivers.len() - i,
    {
        let (l, id) = c.drivers[i];
        let ghost prev = drivers@;
        assert(d.take(i + 1).drop_last() =~= d.take(i as int));
        assert(d.take(i + 1).last() == (l, id@));
        if contains_language(up, l) {
            drivers.push((l, id));
            assert(drivers_view(drivers@) =~= drivers_view(prev).push((l, id@)));
        }
        i = i + 1;
    }
    assert(d.take(i as int) =~= d);
    let spec = crate::db_registry::spec_for(c.database);
    let run_mode = if spec.supports_run_mode {
        c.run_mode
    } else {
        None
    };
    DatabaseConfig { database: c.database, run_mode, drivers, port: c.port.clone() }
}

/// The column counts of a list of rows.
pub open spec fn db_row_counts(rows: Seq<DbNavRow>, spec: DatabaseSpecView) -> Seq<usize> {
    rows.map_values(|r: DbNavRow| r.spec_col_count(spec) as usize)
}

/// The drivers of a configuration with the pair `(language, id)` removed
/// (its first occurrence) when present, appended otherwise.
pub open spec fn toggled_driver(d: Seq<(Language, Seq<char>)>, language: Language, id: Seq<char>) -> Seq<
    (Language, Seq<char>),
> {
    crate::seqs::toggled(d, (language, id))
}

/// `drivers` with the first `(language, id)` pair removed, or the pair
/// appended when it is absent.
pub fn toggle_driver_pair(drivers: &mut Vec<(Language, &'static str)>, language: Language, id: &'static str)
    ensures
        drivers_view(final(drivers)@) == toggled_driver(drivers_view(old(drivers)@), language, id@),
{
    let ghost s = drivers_view(drivers@);
    let ghost x = (language, id@);
    let mut i: usize = 0;
    while i < drivers.len()
        invariant
            i <= drivers.len(),
            s == drivers_view(drivers@),
            *drivers == *old(drivers),
            x == (language, id@),
            forall|j: int| 0 <= j < i ==> !crate::seqs::eq_to(x)(#[trigger] s[j]),
        decreases drivers.len() - i,
    {
        let (l, d) = drivers[i];
        assert(s[i as int] == (l, d@));
        if l == language && crate::text::str_eq(d, id) {
            assert(crate::seqs::eq_to(x)(s[i as int]));
            proof {
                lemma_first_index_found(s, crate::seqs::eq_to(x), i as int);
            }
            drivers.remove(i);
            assert(drivers_view(drivers@) =~= s.remove(i as int));
            return;
        }
        i = i + 1;
    }
    proof {
        lemma_first_index_absent(s, crate::seqs::eq_to(x));
    }
    drivers.push((language, id));
    assert(drivers_view(drivers@) =~= s.push(x));
}

impl DatabaseHandler {
    /// Whether the driver `(language, id)` is ticked in the open database's
    /// scratch entry.
    pub open spec fn spec_driver_checked(&self, language: Language, id: Seq<char>) -> bool {
        match self.expanded {
            Some(db) => db_scratch_pos(self.scratch_v(), db) >= 0 && self.scratch_v()[db_scratch_pos(
                self.scratch_v(),
                db,
            )].2.contains((language, id)),
            None => false,
        }
    }

    /// Opens `db`'s sub-panel: focus moves into it at its first row (on the
    /// entry's run mode when the database has run modes, else the first
    /// column), and the port input shows the entry's port.
    pub fn expand(&mut self, db: Database)
        ensures
            final(self).scratch_v() == db_ensured(old(self).scratch_v(), db),
            final(self).expanded == Some(db),
            final(self).focus == Focus::SubField(0),
            final(self).row_cursor == 0,
            final(self).col_cursor == (if spec_database_spec(db).1 {
                match db_entry(old(self).scratch_v(), db).1 {
                    Some(m) => run_mode_pos(m),
                    None => 0,
                }
            } else {
                0
            }),
            final(self).port_input.title() == PORT_LABEL@,
            final(self).port_input.text() == db_entry(old(self).scratch_v(), db).3,
            final(self).port_input.pos() == 0,
            final(self).cursor == old(self).cursor,
            final(self).selected == old(self).selected,
            final(self).upstream_languages == old(self).upstream_languages,
    {
        let i = self.ensure_scratch(db);
        let port_value = self.scratch[i].port.clone();
        let run_mode = self.scratch[i].run_mode;
        self.expanded = Some(db);
        self.focus = Focus::SubField(0);
        self.row_cursor = 0;
        let spec = spec_for(db);
        self.col_cursor = if spec.supports_run_mode {
            match run_mode {
                Some(m) => run_mode_index(m),
                None => 0,
            }
        } else {
            0
        };
        let mut input = TextInput::new(PORT_LABEL);
        input.set_value(port_value.as_str());
        self.port_input = input;
    }

    /// Number of choice rows: "Next" plus one per database offered.
    pub fn choice_count(&self) -> (r: usize)
        ensures
            r == spec_db_choices().len() + 1,
    {
        db_choice_count() + 1
    }

    /// The database on the cursor's row, `None` on the "Next" row.
    pub fn cursor_db(&self) -> (r: Option<Database>)
        requires
            self.cursor <= spec_db_choices().len(),
        ensures
            r == (if self.cursor == 0 {
                None
            } else {
                Some(spec_db_choices()[self.cursor - 1])
            }),
    {
        if self.cursor == 0 {
            None
        } else {
            Some(db_choice(self.cursor - 1))
        }
    }

    /// The rows of the open sub-panel, for the languages chosen upstream
    /// (empty when nothing is open).
    pub fn nav_rows(&self) -> (r: Vec<DbNavRow>)
        ensures
            r@ == self.rows(),
    {
        match self.expanded {
            Some(db) => db_nav_rows(&spec_for(db), &self.upstream_languages),
            None => Vec::new(),
        }
    }

    /// The row under the 2-D cursor, if any.
    pub fn current_row(&self) -> (r: Option<DbNavRow>)
        ensures
            r == (if self.row_cursor < self.rows().len() {
                Some(self.rows()[self.row_cursor as int])
            } else {
                None::<DbNavRow>
            }),
    {
        let rows = self.nav_rows();
        if self.row_cursor < rows.len() {
            Some(rows[self.row_cursor])
        } else {
            None
        }
    }

    /// Keeps the column inside the current row: at most its last column (0
    /// when there is no current row).
    pub fn clamp_col(&mut self, spec: &DatabaseSpec)
        requires
            old(self).expanded is Some ==> spec@ == old(self).open_spec(),
        ensures
            final(self).col_cursor == (if old(self).row_cursor < old(self).rows().len() {
                crate::steps::languages::clamped(
                    old(self).col_cursor,
                    old(self).rows()[old(self).row_cursor as int].spec_col_count(spec@),
                )
            } else {
                0
            }),
            *final(self) == (DatabaseHandler { col_cursor: final(self).col_cursor, ..*old(self) }),
    {
        match self.current_row() {
            Some(row) => {
                proof {
                    let db = self.expanded->0;
                    lemma_db_catalog_bounds(db);
                    lemma_db_nav_rows_valid(spec_database_spec(db), self.upstream_languages@);
                }
                let cnt = row.col_count(spec);
                let max = if cnt > 0 {
                    cnt - 1
                } else {
                    0
                };
                if self.col_cursor > max {
                    self.col_cursor = max;
                }
            },
            None => {
                self.col_cursor = 0;
            },
        }
    }

    /// The run mode shown for the open database (see
    /// [`DatabaseHandler::spec_run_mode`]).
    pub fn current_run_mode(&self) -> (r: RunMode)
        ensures
            r == self.spec_run_mode(),
    {
        match self.expanded {
            Some(db) => match self.scratch_for(db) {
                Some(c) => match c.run_mode {
                    Some(m) => m,
                    None => RunMode::Docker,
                },
                None => RunMode::Docker,
            },
            None => RunMode::Docker,
        }
    }

    /// Whether the driver `(language, id)` is ticked for the open database.
    pub fn driver_checked(&self, language: Language, id: &str) -> (r: bool)
        ensures
            r == self.spec_driver_checked(language, id@),
    {
        match self.expanded {
            Some(db) => match self.scratch_for(db) {
                Some(c) => {
                    let mut i: usize = 0;
                    while i < c.drivers.len()
                        invariant
                            i <= c.drivers.len(),
                            self.expanded == Some(db),
                            db_scratch_pos(self.scratch_v(), db) >= 0,
                            c@ == self.scratch_v()[db_scratch_pos(self.scratch_v(), db)],
                            forall|j: int| 0 <= j < i ==> drivers_view(c.drivers@)[j] != (language, id@),
                        decreases c.drivers.len() - i,
                    {
                        let (l, d) = c.drivers[i];
                        assert(drivers_view(c.drivers@)[i as int] == (l, d@));
                        if l == language && crate::text::str_eq(d, id) {
                            assert(drivers_view(c.drivers@)[i as int] == (language, id@));
                            assert(c@.2[i as int] == (language, id@));
                            return true;
                        }
                        i = i + 1;
                    }
                    false
                },
                None => false,
            },
            None => false,
        }
    }

    /// Toggles the driver `(language, id)` in the open database's scratch
    /// entry (created if needed); no-op when nothing is open.
    pub fn toggle_driver(&mut self, language: Language, id: &'static str)
        ensures
            final(self).scratch_v() == match old(self).expanded {
                Some(db) => {
                    let e = db_entry(old(self).scratch_v(), db);
                    with_db_entry(
                        old(self).scratch_v(),
                        db,
                        (e.0, e.1, toggled_driver(e.2, language, id@), e.3),
                    )
                },
                None => old(self).scratch_v(),
            },
            *final(self) == (DatabaseHandler { scratch: final(self).scratch, ..*old(self) }),
            old(self).entries_kept(*final(self)),
    {
        proof {
            lemma_keeps_entries_refl(self.scratch_v());
            if let Some(db) = self.expanded {
                lemma_entry_writes_keep(self.scratch_v(), db);
                lemma_db_ensured(self.scratch_v(), db);
            }
        }
        if let Some(db) = self.expanded {
            proof {
                lemma_db_ensured(self.scratch_v(), db);
            }
            let i = self.ensure_scratch(db);
            let mut entry = self.scratch[i].duplicate();
            toggle_driver_pair(&mut entry.drivers, language, id);
            self.set_entry(db, entry);
        }
    }

    /// The problem with the port being typed, if any.
    pub fn live_port_problem(&self) -> (r: Option<&'static str>)
        ensures
            message_view(r) == spec_port_problem(self.port_input.text()),
    {
        let v = self.port_input.value();
        port_problem(v.as_str())
    }

    /// The warning for the first ticked database whose port is rejected
    /// (see [`spec_selected_port_problem`]).
    pub fn selected_port_problem(&self) -> (r: Option<String>)
        ensures
            match r {
                Some(m) => spec_selected_port_problem(self.selected@, self.scratch_v()) == Some(m@),
                None => spec_selected_port_problem(self.selected@, self.scratch_v()) is None,
            },
    {
        let ghost s = self.scratch_v();
        let ghost p = has_port_problem(s);
        let mut i: usize = 0;
        while i < self.selected.len()
            invariant
                i <= self.selected.len(),
                s == self.scratch_v(),
                p == has_port_problem(s),
                forall|j: int| 0 <= j < i ==> !p(#[trigger] self.selected@[j]),
            decreases self.selected.len() - i,
        {
            let db = self.selected[i];
            let problem = match self.scratch_for(db) {
                Some(c) => port_problem(c.port.as_str()),
                None => port_problem(""),
            };
            proof {
                if db_scratch_pos(s, db) < 0 {
                    reveal_strlit("");
                    assert(port_of(s, db) =~= ""@);
                }
            }
            match problem {
                Some(msg) => {
                    assert(p(self.selected@[i as int]));
                    proof {
                        lemma_first_index_found(self.selected@, p, i as int);
                    }
                    let mut out = concat(db.label(), ": ");
                    append(&mut out, msg);
                    return Some(out);
                },
                None => {},
            }
            i = i + 1;
        }
        proof {
            lemma_first_index_absent(self.selected@, p);
        }
        None
    }

    /// Ticks `db` if it is not ticked, unticks it otherwise.
    pub fn toggle_db(&mut self, db: Database)
        ensures
            final(self).selected@ == crate::seqs::toggled(old(self).selected@, db),
            *final(self) == (DatabaseHandler { selected: final(self).selected, ..*old(self) }),
    {
        let ghost s = self.selected@;
        let mut i: usize = 0;
        while i < self.selected.len()
            invariant
                i <= self.selected.len(),
                s == self.selected@,
                *self == *old(self),
                forall|j: int| 0 <= j < i ==> !crate::seqs::eq_to(db)(#[trigger] s[j]),
            decreases self.selected.len() - i,
        {
            if self.selected[i] == db {
                assert(crate::seqs::eq_to(db)(s[i as int]));
                proof {
                    lemma_first_index_found(s, crate::seqs::eq_to(db), i as int);
                }
                self.selected.remove(i);
                return;
            }
            assert(!crate::seqs::eq_to(db)(s[i as int]));
            i = i + 1;
        }
        proof {
            lemma_first_index_absent(s, crate::seqs::eq_to(db));
        }
        self.selected.push(db);
    }

    /// Moves the 2-D cursor one cell forward (or backward) as if the rows'
    /// cells were laid out in one line, wrapping at both ends.
    pub fn advance_flattened(&mut self, rows: &Vec<DbNavRow>, spec: &DatabaseSpec, backward: bool)
        requires
            forall|k: int| 0 <= k < rows@.len() ==> db_row_valid(#[trigger] rows@[k], spec@),
        ensures
            match spec_advance(db_row_counts(rows@, spec@), old(self).row_cursor, old(self).col_cursor, backward) {
                Some((r, c)) => *final(self) == (DatabaseHandler {
                    row_cursor: r,
                    col_cursor: c,
                    ..*old(self)
                }),
                None => *final(self) == *old(self),
            },
    {
        let mut counts: Vec<usize> = Vec::new();
        let mut k: usize = 0;
        while k < rows.len()
            invariant
                k <= rows.len(),
                forall|j: int| 0 <= j < rows@.len() ==> db_row_valid(#[trigger] rows@[j], spec@),
                counts@ == db_row_counts(rows@, spec@).take(k as int),
            decreases rows.len() - k,
        {
            let row = rows[k];
            assert(db_row_valid(rows@[k as int], spec@));
            counts.push(row.col_count(spec));
            k = k + 1;
            assert(counts@ =~= db_row_counts(rows@, spec@).take(k as int));
        }
        assert(db_row_counts(rows@, spec@).take(k as int) =~= db_row_counts(rows@, spec@));
        match advance_flat(&counts, self.row_cursor, self.col_cursor, backward) {
            Some((r, c)) => {
                self.row_cursor = r;
                self.col_cursor = c;
            },
            None => {},
        }
    }

    /// True while focus is inside a sub-panel.
    pub fn in_details(&self) -> (r: bool)
        ensures
            r == self.focus is SubField,
    {
        match self.focus {
            Focus::SubField(_) => true,
            _ => false,
        }
    }

    /// True while a sub-panel is open, wherever focus sits.
    pub fn is_expanded(&self) -> (r: bool)
        ensures
            r == self.expanded is Some,
    {
        self.expanded.is_some()
    }
}

impl DatabaseHandler {
    /// The state a fresh one starts in (see `Default`).
    pub open spec fn is_fresh(self) -> bool {
        &&& self.cursor == 0
        &&& self.selected@.len() == 0
        &&& self.expanded is None
        &&& self.focus == Focus::Choice
        &&& self.row_cursor == 0
        &&& self.col_cursor == 0
        &&& self.port_input.title() == PORT_LABEL@
        &&& self.port_input.text().len() == 0
        &&& self.port_input.pos() == 0
        &&& self.scratch@.len() == 0
        &&& self.upstream_languages@.len() == 0
    }
}

impl Default for DatabaseHandler {
    fn default() -> (r: DatabaseHandler)
        ensures
            r.is_fresh(),
    {
        DatabaseHandler {
            cursor: 0,
            selected: Vec::new(),
            expanded: None,
            focus: Focus::Choice,
            row_cursor: 0,
            col_cursor: 0,
            port_input: TextInput::new(PORT_LABEL),
            scratch: Vec::new(),
            upstream_languages: Vec::new(),
        }
    }
}

/// Whether a key commits on the "Next" row (and opens a sub-panel on a
/// database row).
pub open spec fn is_accept_key(key: Key) -> bool {
    key == Key::Enter || key == Key::Right || key == Key::Char('l')
}

impl DatabaseHandler {
    /// Up inside the sub-panel: from the first row focus returns to the
    /// choice list (writing the port back, the panel stays open); otherwise
    /// the cursor moves one row up, its column clamped.
    pub open spec fn after_up(self, n: DatabaseHandler) -> bool {
        if self.row_cursor == 0 {
            n.scratch_v() == self.synced() && n == (DatabaseHandler {
                scratch: n.scratch,
                focus: Focus::Choice,
                ..self
            })
        } else {
            n == (DatabaseHandler {
                row_cursor: (self.row_cursor - 1) as usize,
                col_cursor: clamped(
                    self.col_cursor,
                    self.rows()[self.row_cursor - 1].spec_col_count(self.open_spec()),
                ),
                ..self
            })
        }
    }

    /// Down inside the sub-panel: one row down (column clamped) unless on
    /// the last row.
    pub open spec fn after_down(self, n: DatabaseHandler) -> bool {
        if self.row_cursor + 1 < self.rows().len() {
            n == (DatabaseHandler {
                row_cursor: (self.row_cursor + 1) as usize,
                col_cursor: clamped(
                    self.col_cursor,
                    self.rows()[self.row_cursor + 1].spec_col_count(self.open_spec()),
                ),
                ..self
            })
        } else {
            n == self
        }
    }

    /// Closing the sub-panel: the port is written back, nothing is open,
    /// focus is on the choice list.
    pub open spec fn after_collapse(self, n: DatabaseHandler) -> bool {
        n.scratch_v() == self.synced() && n == (DatabaseHandler {
            scratch: n.scratch,
            expanded: None,
            focus: Focus::Choice,
            ..self
        })
    }

    /// Closing the sub-panel from Confirm or the port row: only when the
    /// typed port is acceptable, otherwise nothing changes.
    pub open spec fn after_confirm(self, n: DatabaseHandler) -> bool {
        if spec_port_problem(self.port_input.text()) is None {
            self.after_collapse(n)
        } else {
            n == self
        }
    }

    /// Tab / BackTab: the 2-D cursor steps through the flattened cells.
    pub open spec fn after_advance(self, n: DatabaseHandler, backward: bool) -> bool {
        match spec_advance(
            db_row_counts(self.rows(), self.open_spec()),
            self.row_cursor,
            self.col_cursor,
            backward,
        ) {
            Some((r, c)) => n == (DatabaseHandler { row_cursor: r, col_cursor: c, ..self }),
            None => n == self,
        }
    }

    /// A key on the port row edits the input, and the open database's
    /// scratch entry follows the text.
    pub open spec fn after_port_key(self, n: DatabaseHandler, key: Key) -> bool {
        &&& (n.port_input.text(), n.port_input.pos()) == edited(
            self.port_input.text(),
            self.port_input.pos(),
            key,
        )
        &&& n.port_input.title() == self.port_input.title()
        &&& n.scratch_v() == with_port(self.scratch_v(), self.expanded->0, n.port_input.text())
        &&& n == (DatabaseHandler { scratch: n.scratch, port_input: n.port_input, ..self })
    }

    /// The open database's run mode set to the one at position `i`, with the
    /// column following it.
    pub open spec fn after_run_mode(self, n: DatabaseHandler, i: int) -> bool {
        let db = self.expanded->0;
        let e = db_entry(self.scratch_v(), db);
        &&& n.scratch_v() == with_db_entry(
            self.scratch_v(),
            db,
            (e.0, Some(spec_run_modes()[i]), e.2, e.3),
        )
        &&& n == (DatabaseHandler { scratch: n.scratch, col_cursor: i as usize, ..self })
    }

    /// Opening `db`'s sub-panel (see [`DatabaseHandler::expand`]).
    pub open spec fn after_expand(self, n: DatabaseHandler, db: Database) -> bool {
        &&& n.scratch_v() == db_ensured(self.scratch_v(), db)
        &&& n.expanded == Some(db)
        &&& n.focus == Focus::SubField(0)
        &&& n.row_cursor == 0
        &&& n.col_cursor == (if spec_database_spec(db).1 {
            match db_entry(self.scratch_v(), db).1 {
                Some(m) => run_mode_pos(m),
                None => 0,
            }
        } else {
            0
        })
        &&& n.port_input.title() == PORT_LABEL@
        &&& n.port_input.text() == db_entry(self.scratch_v(), db).3
        &&& n.port_input.pos() == 0
        &&& n.cursor == self.cursor
        &&& n.upstream_languages == self.upstream_languages
    }

    /// Choice-list keys: q quits; Down/j and Up/k move the cursor; Space
    /// unticks a ticked database; Enter/Right/l on "Next" commits and
    /// advances unless a ticked database has a rejected port (then nothing
    /// happens), on a database ticks it and opens its sub-panel; Left/h
    /// closes the open sub-panel, or goes back when none is open.
    pub open spec fn choice_step(
        self,
        n: DatabaseHandler,
        oc: ProjectConfig,
        nc: ProjectConfig,
        key: Key,
        r: StepResult,
    ) -> bool {
        let unchanged_config = nc == oc;
        let on = if self.cursor == 0 {
            None
        } else {
            Some(spec_db_choices()[self.cursor - 1])
        };
        if key == Key::Char('q') {
            r == StepResult::Quit && n == self && unchanged_config
        } else if key == Key::Down || key == Key::Char('j') {
            r == StepResult::Continue && unchanged_config && n == (DatabaseHandler {
                cursor: if self.cursor + 1 < spec_db_choices().len() + 1 {
                    (self.cursor + 1) as usize
                } else {
                    self.cursor
                },
                ..self
            })
        } else if key == Key::Up || key == Key::Char('k') {
            r == StepResult::Continue && unchanged_config && n == (DatabaseHandler {
                cursor: if self.cursor > 0 {
                    (self.cursor - 1) as usize
                } else {
                    0
                },
                ..self
            })
        } else if key == Key::Char(' ') {
            r == StepResult::Continue && unchanged_config && match on {
                Some(db) => if self.selected@.contains(db) {
                    n.selected@ == crate::seqs::toggled(self.selected@, db) && n == (DatabaseHandler {
                        selected: n.selected,
                        ..self
                    })
                } else {
                    n == self
                },
                None => n == self,
            }
        } else if is_accept_key(key) {
            match on {
                None => if spec_selected_port_problem(self.selected@, self.scratch_v()) is Some {
                    r == StepResult::Continue && n == self && unchanged_config
                } else {
                    &&& r == StepResult::Done
                    &&& n.scratch_v() == self.synced()
                    &&& n == (DatabaseHandler { scratch: n.scratch, ..self })
                    &&& views(nc.database_configs@) == normalized_all(
                        db_committed(self.selected@, self.synced()),
                        self.upstream_languages@,
                    )
                    &&& nc == (ProjectConfig { database_configs: nc.database_configs, ..oc })
                },
                Some(db) => {
                    &&& r == StepResult::Continue
                    &&& unchanged_config
                    &&& n.selected@ == (if self.selected@.contains(db) {
                        self.selected@
                    } else {
                        self.selected@.push(db)
                    })
                    &&& self.after_expand(n, db)
                },
            }
        } else if key == Key::Left || key == Key::Char('h') {
            unchanged_config && if self.expanded is Some {
                r == StepResult::Continue && self.after_collapse(n)
            } else {
                r == StepResult::Back && n == self
            }
        } else {
            r == StepResult::Continue && unchanged_config && n == self
        }
    }

    /// Keys on the run-mode row: q quits; Left/h and Right/l select the
    /// previous / next run mode (no wrap); Space/Enter cycle to the next one
    /// (wrapping); anything else does nothing.
    pub open spec fn run_mode_step(self, n: DatabaseHandler, key: Key, r: StepResult) -> bool {
        let idx = run_mode_pos(self.spec_run_mode());
        if key == Key::Char('q') {
            r == StepResult::Quit && n == self
        } else if key == Key::Left || key == Key::Char('h') {
            r == StepResult::Continue && if idx > 0 {
                self.after_run_mode(n, idx - 1)
            } else {
                n == self
            }
        } else if key == Key::Right || key == Key::Char('l') {
            r == StepResult::Continue && if idx + 1 < 3 {
                self.after_run_mode(n, idx + 1)
            } else {
                n == self
            }
        } else if key == Key::Char(' ') || key == Key::Enter {
            r == StepResult::Continue && self.after_run_mode(n, (idx + 1) % 3)
        } else {
            r == StepResult::Continue && n == self
        }
    }

    /// Keys on a driver row of `language` (catalog group `g`): q quits;
    /// Left/h and Right/l move between the checkboxes; Space/Enter toggle
    /// the driver under the cursor; anything else does nothing.
    pub open spec fn drivers_step(
        self,
        n: DatabaseHandler,
        key: Key,
        r: StepResult,
        language: Language,
        g: GroupView,
    ) -> bool {
        if key == Key::Char('q') {
            r == StepResult::Quit && n == self
        } else if key == Key::Left || key == Key::Char('h') {
            r == StepResult::Continue && n == (DatabaseHandler {
                col_cursor: if self.col_cursor > 0 {
                    (self.col_cursor - 1) as usize
                } else {
                    0
                },
                ..self
            })
        } else if key == Key::Right || key == Key::Char('l') {
            r == StepResult::Continue && n == (DatabaseHandler {
                col_cursor: if self.col_cursor + 1 < g.1.len() {
                    (self.col_cursor + 1) as usize
                } else {
                    self.col_cursor
                },
                ..self
            })
        } else if key == Key::Char(' ') || key == Key::Enter {
            r == StepResult::Continue && if self.col_cursor < g.1.len() {
                let db = self.expanded->0;
                let e = db_entry(self.scratch_v(), db);
                &&& n.scratch_v() == with_db_entry(
                    self.scratch_v(),
                    db,
                    (e.0, e.1, toggled_driver(e.2, language, g.1[self.col_cursor as int].0), e.3),
                )
                &&& n == (DatabaseHandler { scratch: n.scratch, ..self })
            } else {
                n == self
            }
        } else {
            r == StepResult::Continue && n == self
        }
    }

    /// Sub-panel keys. Esc returns focus to the choice list; Up/Down move
    /// between rows (Up from the first row returns to the choice list);
    /// Tab/BackTab step through the cells. On Confirm: q quits, Space/Enter
    /// close the panel when the port is acceptable, k/j act as Up/Down. On
    /// the port row: Enter closes the panel when the port is acceptable,
    /// other keys edit the port. On the run-mode row see
    /// [`DatabaseHandler::run_mode_step`], on a driver row
    /// [`DatabaseHandler::drivers_step`].
    pub open spec fn subfield_step(self, n: DatabaseHandler, key: Key, r: StepResult) -> bool {
        let row = self.rows()[self.row_cursor as int];
        if key == Key::Esc {
            r == StepResult::Continue && n == (DatabaseHandler { focus: Focus::Choice, ..self })
        } else if key == Key::Up {
            r == StepResult::Continue && self.after_up(n)
        } else if key == Key::Down {
            r == StepResult::Continue && self.after_down(n)
        } else if key == Key::Tab {
            r == StepResult::Continue && self.after_advance(n, false)
        } else if key == Key::BackTab {
            r == StepResult::Continue && self.after_advance(n, true)
        } else {
            match row {
                DbNavRow::Confirm => if key == Key::Char('q') {
                    r == StepResult::Quit && n == self
                } else if key == Key::Char(' ') || key == Key::Enter {
                    r == StepResult::Continue && self.after_confirm(n)
                } else if key == Key::Char('k') {
                    r == StepResult::Continue && self.after_up(n)
                } else if key == Key::Char('j') {
                    r == StepResult::Continue && self.after_down(n)
                } else {
                    r == StepResult::Continue && n == self
                },
                DbNavRow::Port => r == StepResult::Continue && if key == Key::Enter {
                    self.after_confirm(n)
                } else {
                    self.after_port_key(n, key)
                },
                DbNavRow::RunMode => self.run_mode_step(n, key, r),
                DbNavRow::Drivers { language, group_idx } => self.drivers_step(
                    n,
                    key,
                    r,
                    language,
                    self.open_spec().2[group_idx as int],
                ),
            }
        }
    }

    /// What one key does from this state (after the upstream languages were
    /// refreshed): see [`DatabaseHandler::choice_step`] and
    /// [`DatabaseHandler::subfield_step`]; the configuration changes only
    /// when "Next" commits.
    pub open spec fn key_step(
        self,
        n: DatabaseHandler,
        oc: ProjectConfig,
        nc: ProjectConfig,
        key: Key,
        r: StepResult,
    ) -> bool {
        match self.focus {
            Focus::Choice => self.choice_step(n, oc, nc, key, r),
            Focus::SubField(_) => nc == oc && if self.expanded is Some {
                self.subfield_step(n, key, r)
            } else {
                r == StepResult::Continue && n == self
            },
            Focus::Browsing => r == StepResult::Continue && n == self && nc == oc,
        }
    }

}

/// Every database with an entry in `s` has one in `t`.
pub open spec fn keeps_entries(s: Seq<DatabaseConfigView>, t: Seq<DatabaseConfigView>) -> bool {
    forall|d: Database| #![trigger db_scratch_pos(t, d)] db_scratch_pos(s, d) >= 0 ==> db_scratch_pos(t, d) >= 0
}

impl DatabaseHandler {
    /// `n` has the same ticked databases and keeps every scratch entry.
    pub open spec fn entries_kept(self, n: DatabaseHandler) -> bool {
        n.selected == self.selected && keeps_entries(self.scratch_v(), n.scratch_v())
    }
}

/// Writing an entry for `db`, or making sure `db` has one, keeps every
/// entry and gives `db` one.
proof fn lemma_entry_writes_keep(s: Seq<DatabaseConfigView>, db: Database)
    ensures
        forall|e: DatabaseConfigView|
            e.0 == db ==> #[trigger] keeps_entries(s, with_db_entry(s, db, e)) && db_scratch_pos(
                with_db_entry(s, db, e),
                db,
            ) >= 0,
        keeps_entries(s, db_ensured(s, db)),
        db_scratch_pos(db_ensured(s, db), db) >= 0,
        keeps_entries(s, s),
{
    assert forall|e: DatabaseConfigView| e.0 == db implies #[trigger] keeps_entries(s, with_db_entry(s, db, e))
        && db_scratch_pos(with_db_entry(s, db, e), db) >= 0 by {
        assert forall|d: Database| db_scratch_pos(s, d) >= 0 implies #[trigger] db_scratch_pos(
            with_db_entry(s, db, e),
            d,
        ) >= 0 by {
            lemma_with_db_entry_has(s, db, e, d);
        }
        lemma_with_db_entry_has(s, db, e, db);
    }
    lemma_db_ensured(s, db);
    assert(db_ensured(s, db) =~= with_db_entry(s, db, db_entry(s, db)));
}

/// Every entry is kept when nothing changes.
proof fn lemma_keeps_entries_refl(s: Seq<DatabaseConfigView>)
    ensures
        keeps_entries(s, s),
{
}

/// Ticked databases keep their entries when every entry is kept.
proof fn lemma_all_have_scratch_kept(sel: Seq<Database>, s: Seq<DatabaseConfigView>, t: Seq<DatabaseConfigView>)
    requires
        all_have_scratch(sel, s),
        keeps_entries(s, t),
    ensures
        all_have_scratch(sel, t),
{
    assert forall|i: int| 0 <= i < sel.len() implies db_scratch_pos(t, #[trigger] sel[i]) >= 0 by {
        assert(db_scratch_pos(s, sel[i]) >= 0);
    }
}

/// Replacing (or adding) `db`'s entry by one for `db` leaves every other
/// database with an entry exactly when it had one, and gives `db` one.
proof fn lemma_with_db_entry_has(s: Seq<DatabaseConfigView>, db: Database, e: DatabaseConfigView, d: Database)
    requires
        e.0 == db,
    ensures
        db_scratch_pos(with_db_entry(s, db, e), d) >= 0 <==> (d == db || db_scratch_pos(s, d) >= 0),
{
    let t = with_db_entry(s, db, e);
    let pos = db_ensured_pos(s, db);
    lemma_db_ensured(s, db);
    lemma_first_index_props(s, for_database(d));
    lemma_first_index_props(t, for_database(d));
    lemma_first_index_props(s, for_database(db));
    if d == db {
        assert(for_database(d)(t[pos]));
    } else {
        if db_scratch_pos(s, d) >= 0 {
            let w = db_scratch_pos(s, d);
            assert(for_database(d)(s[w]));
            assert(w != pos);
            assert(t[w] == s[w]);
            assert(for_database(d)(t[w]));
        }
        if db_scratch_pos(t, d) >= 0 {
            let w = db_scratch_pos(t, d);
            assert(for_database(d)(t[w]));
            assert(w != pos);
            assert(w < s.len());
            assert(t[w] == s[w]);
            assert(for_database(d)(s[w]));
        }
    }
}


impl DatabaseHandler {
    fn set_run_mode(&mut self, i: usize)
        requires
            old(self).expanded is Some,
            i < 3,
        ensures
            old(self).after_run_mode(*final(self), i as int),
            old(self).entries_kept(*final(self)),
    {
        let db = match self.expanded {
            Some(db) => db,
            None => {
                return;
            },
        };
        proof {
            lemma_db_ensured(self.scratch_v(), db);
        }
        let k = self.ensure_scratch(db);
        let e = self.scratch[k].duplicate();
        let entry = DatabaseConfig {
            database: e.database,
            run_mode: Some(run_mode_at(i)),
            drivers: e.drivers,
            port: e.port,
        };
        self.set_entry(db, entry);
        proof {
            assert(with_db_entry(db_ensured(old(self).scratch_v(), db), db, entry@) =~= with_db_entry(
                old(self).scratch_v(),
                db,
                entry@,
            ));
            assert(old(self).entries_kept(*self)) by {
                lemma_entry_writes_keep(old(self).scratch_v(), db);
            }
        }
        self.col_cursor = i;
    }

    fn handle_choice_input(&mut self, key: Key, config: &mut ProjectConfig) -> (r: StepResult)
        requires
            old(self).wf(),
            old(self).focus == Focus::Choice,
        ensures
            old(self).choice_step(*final(self), *old(config), *final(config), key, r),
    {
        if key == Key::Char('q') {
            StepResult::Quit
        } else if key == Key::Down || key == Key::Char('j') {
            if self.cursor + 1 < self.choice_count() {
                self.cursor = self.cursor + 1;
            }
            StepResult::Continue
        } else if key == Key::Up || key == Key::Char('k') {
            if self.cursor > 0 {
                self.cursor = self.cursor - 1;
            }
            StepResult::Continue
        } else if key == Key::Char(' ') {
            match self.cursor_db() {
                Some(db) => {
                    if self.is_selected(db) {
                        self.toggle_db(db);
                    }
                },
                None => {},
            }
            StepResult::Continue
        } else if key == Key::Enter || key == Key::Right || key == Key::Char('l') {
            match self.cursor_db() {
                None => {
                    if self.selected_port_problem().is_some() {
                        return StepResult::Continue;
                    }
                    proof {
                        if let Some(db) = self.expanded {
                            lemma_entry_writes_keep(self.scratch_v(), db);
                            lemma_db_ensured(self.scratch_v(), db);
                        }
                        lemma_all_have_scratch_kept(self.selected@, self.scratch_v(), self.synced());
                    }
                    self.commit_to_config(config);
                    StepResult::Done
                },
                Some(db) => {
                    if !self.is_selected(db) {
                        self.selected.push(db);
                    }
                    self.expand(db);
                    StepResult::Continue
                },
            }
        } else if key == Key::Left || key == Key::Char('h') {
            if self.expanded.is_some() {
                self.collapse_persist();
                StepResult::Continue
            } else {
                StepResult::Back
            }
        } else {
            StepResult::Continue
        }
    }

    fn up_in_subfield(&mut self, spec: &DatabaseSpec)
        requires
            old(self).expanded is Some,
            spec@ == old(self).open_spec(),
            old(self).row_cursor < old(self).rows().len(),
        ensures
            old(self).after_up(*final(self)),
            old(self).entries_kept(*final(self)),
    {
        proof {
            lemma_keeps_entries_refl(self.scratch_v());
            if let Some(db) = self.expanded {
                lemma_entry_writes_keep(self.scratch_v(), db);
                lemma_db_ensured(self.scratch_v(), db);
            }
        }
        if self.row_cursor == 0 {
            self.collapse_persist_keep_expanded();
            self.focus = Focus::Choice;
        } else {
            self.row_cursor = self.row_cursor - 1;
            self.clamp_col(spec);
        }
    }

    fn down_in_subfield(&mut self, spec: &DatabaseSpec, nrows: usize)
        requires
            old(self).expanded is Some,
            old(self).row_cursor < nrows,
            spec@ == old(self).open_spec(),
            nrows == old(self).rows().len(),
        ensures
            old(self).after_down(*final(self)),
            old(self).entries_kept(*final(self)),
    {
        proof {
            lemma_keeps_entries_refl(self.scratch_v());
            if let Some(db) = self.expanded {
                lemma_entry_writes_keep(self.scratch_v(), db);
                lemma_db_ensured(self.scratch_v(), db);
            }
        }
        if self.row_cursor + 1 < nrows {
            self.row_cursor = self.row_cursor + 1;
            self.clamp_col(spec);
        }
    }

    fn confirm_if_port_ok(&mut self)
        requires
            old(self).expanded is Some,
        ensures
            old(self).after_confirm(*final(self)),
            old(self).entries_kept(*final(self)),
    {
        proof {
            lemma_keeps_entries_refl(self.scratch_v());
            if let Some(db) = self.expanded {
                lemma_entry_writes_keep(self.scratch_v(), db);
                lemma_db_ensured(self.scratch_v(), db);
            }
        }
        if self.live_port_problem().is_none() {
            self.collapse_persist();
        }
    }

    fn handle_subfield_input(&mut self, key: Key) -> (r: StepResult)
        requires
            old(self).wf(),
            old(self).focus is SubField,
            old(self).expanded is Some,
            old(self).port_input.text().len() < usize::MAX,
        ensures
            old(self).subfield_step(*final(self), key, r),
            old(self).entries_kept(*final(self)),
    {
        proof {
            lemma_keeps_entries_refl(self.scratch_v());
            if let Some(db) = self.expanded {
                lemma_entry_writes_keep(self.scratch_v(), db);
                lemma_db_ensured(self.scratch_v(), db);
            }
        }
        let db = match self.expanded {
            Some(db) => db,
            None => {
                return StepResult::Continue;
            },
        };
        let spec = spec_for(db);
        let rows = self.nav_rows();
        proof {
            lemma_db_catalog_bounds(db);
            lemma_db_nav_rows_valid(spec@, self.upstream_languages@);
        }
        if key == Key::Esc {
            self.focus = Focus::Choice;
            return StepResult::Continue;
        } else if key == Key::Up {
            self.up_in_subfield(&spec);
            return StepResult::Continue;
        } else if key == Key::Down {
            self.down_in_subfield(&spec, rows.len());
            return StepResult::Continue;
        } else if key == Key::Tab {
            self.advance_flattened(&rows, &spec, false);
            return StepResult::Continue;
        } else if key == Key::BackTab {
            self.advance_flattened(&rows, &spec, true);
            return StepResult::Continue;
        }
        let row = rows[self.row_cursor];
        match row {
            DbNavRow::Confirm => self.confirm_row_key(key, &spec, rows.len()),
            DbNavRow::Port => self.port_row_key(key),
            DbNavRow::RunMode => self.run_mode_key(key),
            DbNavRow::Drivers { language, group_idx } => {
                assert(db_row_valid(row, spec@));
                self.drivers_key(key, language, &spec, group_idx)
            },
        }
    }

    fn confirm_row_key(&mut self, key: Key, spec: &DatabaseSpec, nrows: usize) -> (r: StepResult)
        requires
            old(self).wf(),
            old(self).focus is SubField,
            old(self).expanded is Some,
            spec@ == old(self).open_spec(),
            nrows == old(self).rows().len(),
            old(self).rows()[old(self).row_cursor as int] == DbNavRow::Confirm,
            !(key == Key::Esc || key == Key::Up || key == Key::Down || key == Key::Tab || key
                == Key::BackTab),
        ensures
            old(self).subfield_step(*final(self), key, r),
            old(self).entries_kept(*final(self)),
    {
        proof {
            lemma_keeps_entries_refl(self.scratch_v());
            if let Some(db) = self.expanded {
                lemma_entry_writes_keep(self.scratch_v(), db);
                lemma_db_ensured(self.scratch_v(), db);
            }
        }
        if key == Key::Char('q') {
            return StepResult::Quit;
        } else if key == Key::Char(' ') || key == Key::Enter {
            self.confirm_if_port_ok();
        } else if key == Key::Char('k') {
            self.up_in_subfield(spec);
        } else if key == Key::Char('j') {
            self.down_in_subfield(spec, nrows);
        }
        StepResult::Continue
    }

    fn port_row_key(&mut self, key: Key) -> (r: StepResult)
        requires
            old(self).wf(),
            old(self).focus is SubField,
            old(self).expanded is Some,
            old(self).rows()[old(self).row_cursor as int] == DbNavRow::Port,
            old(self).port_input.text().len() < usize::MAX,
            !(key == Key::Esc || key == Key::Up || key == Key::Down || key == Key::Tab || key
                == Key::BackTab),
        ensures
            old(self).subfield_step(*final(self), key, r),
            old(self).entries_kept(*final(self)),
    {
        proof {
            lemma_keeps_entries_refl(self.scratch_v());
            if let Some(db) = self.expanded {
                lemma_entry_writes_keep(self.scratch_v(), db);
                lemma_db_ensured(self.scratch_v(), db);
            }
        }
        if key == Key::Enter {
            self.confirm_if_port_ok();
            return StepResult::Continue;
        }
        // Keys that are not editing keys leave the input as it is.
        self.port_input.handle_input(key);
        self.sync_port_to_scratch();
        StepResult::Continue
    }

    fn run_mode_key(&mut self, key: Key) -> (r: StepResult)
        requires
            old(self).wf(),
            old(self).focus is SubField,
            old(self).expanded is Some,
            old(self).rows()[old(self).row_cursor as int] == DbNavRow::RunMode,
            !(key == Key::Esc || key == Key::Up || key == Key::Down || key == Key::Tab || key
                == Key::BackTab),
        ensures
            old(self).subfield_step(*final(self), key, r),
            old(self).entries_kept(*final(self)),
    {
        proof {
            lemma_keeps_entries_refl(self.scratch_v());
            if let Some(db) = self.expanded {
                lemma_entry_writes_keep(self.scratch_v(), db);
                lemma_db_ensured(self.scratch_v(), db);
            }
        }
        let idx = run_mode_index(self.current_run_mode());
        if key == Key::Char('q') {
            StepResult::Quit
        } else if key == Key::Left || key == Key::Char('h') {
            if idx > 0 {
                self.set_run_mode(idx - 1);
            }
            StepResult::Continue
        } else if key == Key::Right || key == Key::Char('l') {
            if idx + 1 < 3 {
                self.set_run_mode(idx + 1);
            }
            StepResult::Continue
        } else if key == Key::Char(' ') || key == Key::Enter {
            self.set_run_mode((idx + 1) % 3);
            StepResult::Continue
        } else {
            StepResult::Continue
        }
    }

    fn drivers_key(&mut self, key: Key, language: Language, spec: &DatabaseSpec, group_idx: usize) -> (r:
        StepResult)
        requires
            old(self).wf(),
            old(self).focus is SubField,
            old(self).expanded is Some,
            spec@ == old(self).open_spec(),
            old(self).rows()[old(self).row_cursor as int] == (DbNavRow::Drivers { language, group_idx }),
            db_row_valid(DbNavRow::Drivers { language, group_idx }, spec@),
            !(key == Key::Esc || key == Key::Up || key == Key::Down || key == Key::Tab || key
                == Key::BackTab),
        ensures
            old(self).subfield_step(*final(self), key, r),
            old(self).entries_kept(*final(self)),
    {
        proof {
            lemma_keeps_entries_refl(self.scratch_v());
        }
        let group = &spec.driver_groups[group_idx];
        assert(spec@.2[group_idx as int] == group@);
        if key == Key::Char('q') {
            StepResult::Quit
        } else if key == Key::Left || key == Key::Char('h') {
            if self.col_cursor > 0 {
                self.col_cursor = self.col_cursor - 1;
            }
            StepResult::Continue
        } else if key == Key::Right || key == Key::Char('l') {
            if self.col_cursor + 1 < group.drivers.len() {
                self.col_cursor = self.col_cursor + 1;
            }
            StepResult::Continue
        } else if key == Key::Char(' ') || key == Key::Enter {
            if self.col_cursor < group.drivers.len() {
                let id = group.drivers[self.col_cursor].id;
                assert(id@ == group@.1[self.col_cursor as int].0);
                self.toggle_driver(language, id);
            }
            StepResult::Continue
        } else {
            StepResult::Continue
        }
    }

    /// Handles one key with the upstream languages as they are (see
    /// [`DatabaseHandler::key_step`]). The handler's invariant is kept.
    pub fn handle_key(&mut self, key: Key, config: &mut ProjectConfig) -> (r: StepResult)
        requires
            old(self).wf(),
            old(self).port_input.text().len() < usize::MAX,
        ensures
            final(self).wf(),
            old(self).key_step(*final(self), *old(config), *final(config), key, r),
    {
        let r = match self.focus {
            Focus::Choice => self.handle_choice_input(key, config),
            Focus::SubField(_) => {
                if self.expanded.is_some() {
                    self.handle_subfield_input(key)
                } else {
                    StepResult::Continue
                }
            },
            Focus::Browsing => StepResult::Continue,
        };
        proof {
            self.lemma_step_keeps_wf(*old(self), *old(config), *config, key, r);
        }
        r
    }

    /// Handles one key: the upstream languages are first taken from the
    /// configuration, then the key acts as [`DatabaseHandler::handle_key`]
    /// says.
    pub fn handle_input(&mut self, key: Key, config: &mut ProjectConfig) -> (r: StepResult)
        requires
            old(self).wf_for(config_languages(*old(config))),
            old(self).port_input.text().len() < usize::MAX,
        ensures
            final(self).wf(),
            exists|m: DatabaseHandler|
                {
                    &&& m.upstream_languages@ == config_languages(*old(config))
                    &&& m == (DatabaseHandler { upstream_languages: m.upstream_languages, ..*old(self) })
                    &&& #[trigger] m.key_step(*final(self), *old(config), *final(config), key, r)
                },
            r == StepResult::Done ==> entries_ok(
                views(final(config).database_configs@),
                config_languages(*final(config)),
            ),
    {
        self.refresh_upstream(config);
        let ghost m = *self;
        let r = self.handle_key(key, config);
        assert(m.key_step(*self, *old(config), *config, key, r));
        proof {
            lemma_normalized_all_ok(db_committed(m.selected@, m.synced()), m.upstream_languages@);
        }
        r
    }

    proof fn lemma_step_keeps_wf(
        self,
        o: DatabaseHandler,
        oc: ProjectConfig,
        nc: ProjectConfig,
        key: Key,
        r: StepResult,
    )
        requires
            o.wf(),
            o.key_step(self, oc, nc, key, r),
            (o.focus is SubField && o.expanded is Some) ==> o.entries_kept(self),
        ensures
            self.wf(),
    {
        self.lemma_key_keeps_scratch(o, oc, nc, key, r);
        if o.focus == Focus::Choice {
            self.lemma_choice_keeps_wf(o, oc, nc, key, r);
        } else if o.focus is SubField && o.expanded is Some {
            self.lemma_subfield_keeps_wf(o, key, r);
        }
    }

    #[verifier::spinoff_prover]
    proof fn lemma_choice_keeps_wf(
        self,
        o: DatabaseHandler,
        oc: ProjectConfig,
        nc: ProjectConfig,
        key: Key,
        r: StepResult,
    )
        requires
            all_have_scratch(self.selected@, self.scratch_v()),
            o.wf(),
            o.focus == Focus::Choice,
            o.choice_step(self, oc, nc, key, r),
        ensures
            self.wf(),
    {
        if let Some(db) = self.expanded {
            lemma_db_catalog_bounds(db);
            lemma_db_nav_rows_valid(spec_database_spec(db), self.upstream_languages@);
            if self.focus is SubField {
                assert(self.rows()[0].spec_col_count(spec_database_spec(db)) >= 1);
            }
        }
    }

    #[verifier::spinoff_prover]
    #[verifier::rlimit(30)]
    proof fn lemma_subfield_keeps_wf(self, o: DatabaseHandler, key: Key, r: StepResult)
        requires
            all_have_scratch(self.selected@, self.scratch_v()),
            o.wf(),
            o.focus is SubField,
            o.expanded is Some,
            o.subfield_step(self, key, r),
        ensures
            self.wf(),
    {
        let db = o.expanded->0;
        let spec = spec_database_spec(db);
        lemma_db_catalog_bounds(db);
        lemma_db_nav_rows_valid(spec, o.upstream_languages@);
        let rows = o.rows();
        if key == Key::Tab || key == Key::BackTab {
            lemma_db_advance_stays_in_grid(rows, spec, o.row_cursor, o.col_cursor, key == Key::BackTab);
        } else if key == Key::Esc || key == Key::Up || key == Key::Down {
            if o.row_cursor > 0 {
                assert(rows[o.row_cursor - 1].spec_col_count(spec) >= 1);
            }
            if o.row_cursor + 1 < rows.len() {
                assert(rows[o.row_cursor + 1].spec_col_count(spec) >= 1);
            }
        } else {
            match rows[o.row_cursor as int] {
                DbNavRow::Confirm => {
                    if o.row_cursor > 0 {
                        assert(rows[o.row_cursor - 1].spec_col_count(spec) >= 1);
                    }
                    if o.row_cursor + 1 < rows.len() {
                        assert(rows[o.row_cursor + 1].spec_col_count(spec) >= 1);
                    }
                },
                DbNavRow::RunMode => {
                    assert(rows[o.row_cursor as int].spec_col_count(spec) == 3);
                },
                _ => {},
            }
        }
    }
}

impl DatabaseHandler {
    /// A key leaves every ticked database with a scratch entry.
    proof fn lemma_key_keeps_scratch(
        self,
        o: DatabaseHandler,
        oc: ProjectConfig,
        nc: ProjectConfig,
        key: Key,
        r: StepResult,
    )
        requires
            o.wf(),
            o.key_step(self, oc, nc, key, r),
            (o.focus is SubField && o.expanded is Some) ==> o.entries_kept(self),
        ensures
            all_have_scratch(self.selected@, self.scratch_v()),
    {
        if o.focus == Focus::Choice {
            self.lemma_choice_keeps_scratch(o, oc, nc, key, r);
        } else if o.focus is SubField && o.expanded is Some {
            lemma_all_have_scratch_kept(o.selected@, o.scratch_v(), self.scratch_v());
        }
    }

    proof fn lemma_choice_keeps_scratch(
        self,
        o: DatabaseHandler,
        oc: ProjectConfig,
        nc: ProjectConfig,
        key: Key,
        r: StepResult,
    )
        requires
            o.focus == Focus::Choice,
            all_have_scratch(o.selected@, o.scratch_v()),
            o.choice_step(self, oc, nc, key, r),
        ensures
            all_have_scratch(self.selected@, self.scratch_v()),
    {
        let s = o.scratch_v();
        if let Some(db) = o.expanded {
            lemma_entry_writes_keep(s, db);
            lemma_db_ensured(s, db);
        }
        if o.cursor > 0 && (key == Key::Char(' ') || is_accept_key(key)) {
            let db = spec_db_choices()[o.cursor - 1];
            lemma_entry_writes_keep(s, db);
            if key == Key::Char(' ') {
                if o.selected@.contains(db) {
                    let t = crate::seqs::toggled(o.selected@, db);
                    assert forall|i: int| 0 <= i < t.len() implies db_scratch_pos(s, #[trigger] t[i]) >= 0 by {
                        crate::seqs::lemma_toggled_elements(o.selected@, db, i);
                        let w = choose|w: int| 0 <= w < o.selected@.len() && o.selected@[w] == t[i];
                        assert(db_scratch_pos(s, o.selected@[w]) >= 0);
                    }
                }
            } else {
                let t = if o.selected@.contains(db) {
                    o.selected@
                } else {
                    o.selected@.push(db)
                };
                assert forall|i: int| 0 <= i < t.len() implies db_scratch_pos(
                    db_ensured(s, db),
                    #[trigger] t[i],
                ) >= 0 by {
                    if i < o.selected@.len() {
                        assert(t[i] == o.selected@[i]);
                        assert(db_scratch_pos(s, o.selected@[i]) >= 0);
                    }
                }
            }
        } else {
            lemma_keeps_entries_refl(s);
            lemma_all_have_scratch_kept(o.selected@, s, o.synced());
        }
    }

}

/// A step through the flattened cells of valid rows lands on a cell.
proof fn lemma_db_advance_stays_in_grid(
    rows: Seq<DbNavRow>,
    spec: DatabaseSpecView,
    row: usize,
    col: usize,
    backward: bool,
)
    requires
        rows.len() <= usize::MAX,
        forall|k: int|
            0 <= k < rows.len() ==> db_row_valid(#[trigger] rows[k], spec) && 1 <= rows[k].spec_col_count(
                spec,
            ) <= usize::MAX,
    ensures
        match spec_advance(db_row_counts(rows, spec), row, col, backward) {
            Some((r, c)) => r < rows.len() && c < rows[r as int].spec_col_count(spec),
            None => true,
        },
{
    let counts = db_row_counts(rows, spec);
    lemma_flat_positions_bounds(counts);
    let f = flat_positions(counts);
    if f.len() > 0 {
        lemma_first_index_props(f, at_cell(row, col));
        let p0 = first_index_by(f, at_cell(row, col));
        let p = if p0 < 0 {
            0
        } else {
            p0
        };
        let next = if backward {
            if p == 0 {
                f.len() - 1
            } else {
                p - 1
            }
        } else {
            (p + 1) % (f.len() as int)
        };
        assert(0 <= next < f.len()) by (nonlinear_arith)
            requires
                0 <= p < f.len(),
                next == (if backward {
                    if p == 0 {
                        f.len() - 1
                    } else {
                        p - 1
                    }
                } else {
                    (p + 1) % (f.len() as int)
                }),
        ;
        let (r, c) = f[next];
        assert(counts[r as int] == rows[r as int].spec_col_count(spec) as usize);
    }
}

/// The labels of a configuration's drivers, in order, skipping any pair the
/// catalog does not know.
pub open spec fn driver_labels(drivers: Seq<(Language, Seq<char>)>) -> Seq<Seq<char>>
    decreases drivers.len(),
{
    if drivers.len() == 0 {
        Seq::empty()
    } else {
        let prev = driver_labels(drivers.drop_last());
        match find_driver(spec_all_drivers(drivers.last().0), drivers.last().1) {
            Some(d) => prev.push(d.1),
            None => prev,
        }
    }
}

/// The planned actions for one configured database: "Configure <name>",
/// then "Run mode: <mode>" when it has one, then "Drivers: <labels>" when
/// any of its drivers is known.
pub open spec fn db_config_actions(c: DatabaseConfigView) -> Seq<Seq<char>> {
    let labels = driver_labels(c.2);
    seq!["Configure "@ + c.0.spec_label()] + (match c.1 {
        Some(rm) => seq!["Run mode: "@ + rm.spec_label()],
        None => Seq::empty(),
    }) + (if labels.len() > 0 {
        seq!["Drivers: "@ + joined(labels, ", "@)]
    } else {
        Seq::empty()
    })
}

/// The planned actions for the configured databases, in order.
pub open spec fn db_actions(configs: Seq<DatabaseConfigView>) -> Seq<Seq<char>>
    decreases configs.len(),
{
    if configs.len() == 0 {
        Seq::empty()
    } else {
        db_actions(configs.drop_last()) + db_config_actions(configs.last())
    }
}

fn config_actions(dc: &DatabaseConfig) -> (r: Vec<String>)
    ensures
        r@.map_values(|s: String| s@) == db_config_actions(dc@),
{
    let mut out: Vec<String> = Vec::new();
    out.push(concat("Configure ", dc.database.label()));
    if let Some(rm) = dc.run_mode {
        out.push(concat("Run mode: ", rm.label()));
    }
    let mut labels: Vec<String> = Vec::new();
    let mut i: usize = 0;
    while i < dc.drivers.len()
        invariant
            i <= dc.drivers.len(),
            labels@.map_values(|s: String| s@) == driver_labels(drivers_view(dc.drivers@).take(i as int)),
        decreases dc.drivers.len() - i,
    {
        let (lang, id) = dc.drivers[i];
        let ghost t = drivers_view(dc.drivers@).take(i + 1);
        assert(t.drop_last() =~= drivers_view(dc.drivers@).take(i as int));
        assert(t.last() == (lang, id@));
        match driver_by_id(lang, id) {
            Some(d) => {
                labels.push(String::from_str(d.label));
                assert(labels@.map_values(|s: String| s@) =~= driver_labels(t));
            },
            None => {},
        }
        i = i + 1;
    }
    assert(drivers_view(dc.drivers@).take(i as int) =~= dc@.2);
    if labels.len() > 0 {
        let joined_labels = join(&labels, ", ");
        out.push(concat("Drivers: ", joined_labels.as_str()));
    }
    assert(out@.map_values(|s: String| s@) =~= db_config_actions(dc@));
    out
}

impl DatabaseHandler {
    /// What confirming the wizard will do for the configured databases (see
    /// [`db_actions`]).
    pub fn planned_actions(&self, config: &ProjectConfig) -> (r: Vec<String>)
        ensures
            r@.map_values(|s: String| s@) == db_actions(views(config.database_configs@)),
    {
        let ghost cs = views(config.database_configs@);
        let mut actions: Vec<String> = Vec::new();
        let mut i: usize = 0;
        while i < config.database_configs.len()
            invariant
                i <= config.database_configs.len(),
                cs == views(config.database_configs@),
                actions@.map_values(|s: String| s@) == db_actions(cs.take(i as int)),
            decreases config.database_configs.len() - i,
        {
            let more = config_actions(&config.database_configs[i]);
            let ghost before = actions@.map_values(|s: String| s@);
            extend_strings(&mut actions, &more);
            let ghost t = cs.take(i + 1);
            assert(t.drop_last() =~= cs.take(i as int));
            i = i + 1;
        }
        assert(cs.take(i as int) =~= cs);
        actions
    }

    /// Nothing is written for the databases yet: always `Ok`.
    pub fn execute(&self, config: &ProjectConfig) -> (r: Result<(), std::io::Error>)
        ensures
            r is Ok,
    {
        Ok(())
    }
}

/// The configured databases are pairwise distinct.
pub open spec fn distinct_databases(configs: Seq<DatabaseConfig>) -> bool {
    forall|i: int, j: int|
        0 <= i < j < configs.len() ==> (#[trigger] configs[i]).database != (#[trigger] configs[j]).database
}

/// What restoring a configuration with distinct databases leaves: each
/// configured database ticked at its own position, with its configuration
/// as scratch entry.
proof fn lemma_restored_positions(config: ProjectConfig, n: DatabaseHandler)
    requires
        distinct_databases(config.database_configs@),
        n.selected@ == config.database_configs@.map_values(|c: DatabaseConfig| c.database),
        n.scratch_v() == views(config.database_configs@),
    ensures
        forall|i: int| 0 <= i < n.selected@.len() ==> db_scratch_pos(n.scratch_v(), #[trigger] n.selected@[i]) == i,
        db_committed(n.selected@, n.scratch_v()) == n.scratch_v(),
{
    let s = n.scratch_v();
    let sel = n.selected@;
    assert forall|i: int| 0 <= i < sel.len() implies db_scratch_pos(s, #[trigger] sel[i]) == i by {
        assert(sel[i] == config.database_configs@[i].database);
        assert forall|j: int| 0 <= j < i implies !for_database(sel[i])(#[trigger] s[j]) by {
            assert(s[j].0 == config.database_configs@[j].database);
        }
        assert(s[i].0 == config.database_configs@[i].database);
        lemma_first_index_found(s, for_database(sel[i]), i);
    }
    assert(db_committed(sel, s) =~= s);
}

/// Restoring the step from a configuration whose databases are distinct
/// and whose ports are all acceptable, then pressing Enter on "Next",
/// commits the configured databases again, in the same order,
/// normalized for the configured languages (see [`normalized`]), and
/// advances: a configuration already so is committed exactly as it was.
pub proof fn lemma_restore_then_next(
    h: DatabaseHandler,
    config: ProjectConfig,
    n: DatabaseHandler,
    m: DatabaseHandler,
    nc: ProjectConfig,
    r: StepResult,
)
    requires
        distinct_databases(config.database_configs@),
        forall|i: int|
            0 <= i < config.database_configs@.len() ==> spec_port_problem(
                (#[trigger] config.database_configs@[i]).port@,
            ) is None,
        h.restored(n, config),
        n.choice_step(m, config, nc, Key::Enter, r),
    ensures
        r == StepResult::Done,
        views(nc.database_configs@) == normalized_all(views(config.database_configs@), config_languages(config)),
        entries_ok(views(config.database_configs@), config_languages(config)) ==> views(
            nc.database_configs@,
        ) == views(config.database_configs@),
{
    let up = config_languages(config);
    let s = n.scratch_v();
    let sel = n.selected@;
    lemma_restored_positions(config, n);
    assert(n.synced() == s);
    assert forall|j: int| 0 <= j < sel.len() implies !has_port_problem(s)(#[trigger] sel[j]) by {
        assert(db_scratch_pos(s, sel[j]) == j);
        assert(port_of(s, sel[j]) == config.database_configs@[j].port@);
    }
    lemma_first_index_absent(sel, has_port_problem(s));
    lemma_normalized_all_ok(views(config.database_configs@), up);
}

/// Unticking a ticked database with Space and ticking it again with Enter
/// keeps what was chosen for it: the database is ticked again, its scratch
/// entry is untouched, and its sub-panel opens on that entry.
pub proof fn lemma_untick_retick_keeps_choices(
    h: DatabaseHandler,
    c: ProjectConfig,
    h1: DatabaseHandler,
    c1: ProjectConfig,
    r1: StepResult,
    h2: DatabaseHandler,
    c2: ProjectConfig,
    r2: StepResult,
)
    requires
        h.cursor <= spec_db_choices().len(),
        h.focus == Focus::Choice,
        h.cursor > 0,
        h.selected@.contains(spec_db_choices()[h.cursor - 1]),
        h.choice_step(h1, c, c1, Key::Char(' '), r1),
        h1.choice_step(h2, c1, c2, Key::Enter, r2),
    ensures
        h2.selected@.contains(spec_db_choices()[h.cursor - 1]),
        h2.scratch_v() == db_ensured(h.scratch_v(), spec_db_choices()[h.cursor - 1]),
        db_scratch_pos(h.scratch_v(), spec_db_choices()[h.cursor - 1]) >= 0 ==> h2.scratch_v()
            == h.scratch_v(),
        h2.expanded == Some(spec_db_choices()[h.cursor - 1]),
        h2.port_input.text() == db_entry(h.scratch_v(), spec_db_choices()[h.cursor - 1]).3,
        c2 == c,
{
    let d = spec_db_choices()[h.cursor - 1];
    if h1.selected@.contains(d) {
    } else {
        assert(h1.selected@.push(d)[h1.selected@.len() as int] == d);
    }
}

impl DatabaseHandler {
    /// Tab then BackTab inside an open sub-panel brings the 2-D cursor back
    /// to the cell it started on, changing nothing else.
    pub proof fn lemma_tab_then_backtab(self, n: DatabaseHandler, m: DatabaseHandler, r1: StepResult, r2: StepResult)
        requires
            self.wf(),
            self.focus is SubField,
            self.expanded is Some,
            self.subfield_step(n, Key::Tab, r1),
            n.subfield_step(m, Key::BackTab, r2),
        ensures
            m == self,
    {
        self.lemma_tab_is_advance(n, r1, false);
        n.lemma_tab_is_advance(m, r2, true);
        let db = self.expanded->0;
        let spec = spec_database_spec(db);
        lemma_db_catalog_bounds(db);
        lemma_db_nav_rows_valid(spec, self.upstream_languages@);
        let rows = self.rows();
        let counts = db_row_counts(rows, spec);
        assert(counts[self.row_cursor as int] == rows[self.row_cursor as int].spec_col_count(spec) as usize);
        crate::seqs::lemma_advance_then_back(counts, self.row_cursor, self.col_cursor);
    }

    /// BackTab then Tab inside an open sub-panel brings the 2-D cursor back
    /// to the cell it started on, changing nothing else.
    pub proof fn lemma_backtab_then_tab(self, n: DatabaseHandler, m: DatabaseHandler, r1: StepResult, r2: StepResult)
        requires
            self.wf(),
            self.focus is SubField,
            self.expanded is Some,
            self.subfield_step(n, Key::BackTab, r1),
            n.subfield_step(m, Key::Tab, r2),
        ensures
            m == self,
    {
        self.lemma_tab_is_advance(n, r1, true);
        n.lemma_tab_is_advance(m, r2, false);
        let db = self.expanded->0;
        let spec = spec_database_spec(db);
        lemma_db_catalog_bounds(db);
        lemma_db_nav_rows_valid(spec, self.upstream_languages@);
        let rows = self.rows();
        let counts = db_row_counts(rows, spec);
        assert(counts[self.row_cursor as int] == rows[self.row_cursor as int].spec_col_count(spec) as usize);
        crate::seqs::lemma_back_then_advance(counts, self.row_cursor, self.col_cursor);
    }

    proof fn lemma_tab_is_advance(self, n: DatabaseHandler, r: StepResult, backward: bool)
        requires
            self.subfield_step(n, if backward { Key::BackTab } else { Key::Tab }, r),
        ensures
            self.after_advance(n, backward),
    {
    }
}

/// A database entry as the step keeps it: its drivers are for languages in
/// `up` (those chosen upstream), and it has a run mode only when the
/// database has run modes.
pub open spec fn entry_ok(e: DatabaseConfigView, up: Seq<Language>) -> bool {
    &&& forall|j: int| 0 <= j < e.2.len() ==> up.contains(#[trigger] e.2[j].0)
    &&& (e.1 is Some ==> spec_database_spec(e.0).1)
}

/// Every entry is as the step keeps it (see [`entry_ok`]).
pub open spec fn entries_ok(s: Seq<DatabaseConfigView>, up: Seq<Language>) -> bool {
    forall|i: int| 0 <= i < s.len() ==> entry_ok(#[trigger] s[i], up)
}

/// Driver rows are for upstream languages only.
proof fn lemma_driver_rows_upstream(groups: Seq<GroupView>, up: Seq<Language>, n: nat)
    requires
        n <= groups.len(),
    ensures
        forall|k: int|
            0 <= k < driver_rows(groups, up, n).len() ==> (#[trigger] driver_rows(groups, up, n)[k]) is Drivers
                && up.contains(driver_rows(groups, up, n)[k]->language),
    decreases n,
{
    if n > 0 {
        lemma_driver_rows_upstream(groups, up, (n - 1) as nat);
        let prev = driver_rows(groups, up, (n - 1) as nat);
        let all = driver_rows(groups, up, n);
        assert forall|k: int| 0 <= k < all.len() implies (#[trigger] all[k]) is Drivers && up.contains(
            all[k]->language,
        ) by {
            if k < prev.len() {
                assert(all[k] == prev[k]);
            }
        }
    }
}

/// A row of a sub-panel offers drivers only for an upstream language, and
/// is the run-mode row only for a database with run modes.
proof fn lemma_row_scoped(spec: DatabaseSpecView, up: Seq<Language>, k: int)
    requires
        0 <= k < spec_db_nav_rows(spec, up).len(),
    ensures
        spec_db_nav_rows(spec, up)[k] is Drivers ==> up.contains(spec_db_nav_rows(spec, up)[k]->language),
        spec_db_nav_rows(spec, up)[k] == DbNavRow::RunMode ==> spec.1,
{
    lemma_driver_rows_upstream(spec.2, up, spec.2.len());
    let a: Seq<DbNavRow> = if spec.1 {
        seq![DbNavRow::RunMode]
    } else {
        Seq::empty()
    };
    let d = driver_rows(spec.2, up, spec.2.len());
    let p: Seq<DbNavRow> = if spec.0 is Some {
        seq![DbNavRow::Port]
    } else {
        Seq::empty()
    };
    let rows = spec_db_nav_rows(spec, up);
    assert(rows == a + d + p + seq![DbNavRow::Confirm]);
    if k < a.len() {
        assert(rows[k] == a[k]);
    } else if k < a.len() + d.len() {
        assert(rows[k] == d[k - a.len()]);
    } else if k < a.len() + d.len() + p.len() {
        assert(rows[k] == p[k - a.len() - d.len()]);
    } else {
        assert(rows[k] == DbNavRow::Confirm);
    }
}

/// Ensuring an entry for `db`, and then replacing it by an entry for `db`
/// that is as the step keeps it, keeps every entry so.
proof fn lemma_with_db_entry_ok(s: Seq<DatabaseConfigView>, db: Database, e: DatabaseConfigView, up: Seq<Language>)
    requires
        entries_ok(s, up),
        e.0 == db,
        entry_ok(e, up),
    ensures
        entries_ok(db_ensured(s, db), up),
        entries_ok(with_db_entry(s, db, e), up),
        entry_ok(db_entry(s, db), up),
        db_entry(s, db).0 == db,
{
    lemma_db_ensured(s, db);
    let t = db_ensured(s, db);
    assert forall|i: int| 0 <= i < t.len() implies entry_ok(#[trigger] t[i], up) by {
        if i < s.len() {
            assert(t[i] == s[i]);
        } else {
            assert(t[i] == fresh_config(db));
        }
    }
    let u = with_db_entry(s, db, e);
    assert forall|i: int| 0 <= i < u.len() implies entry_ok(#[trigger] u[i], up) by {
        if i != db_ensured_pos(s, db) {
            assert(u[i] == t[i]);
        }
    }
}

/// The entries with the typed port written back stay as the step keeps
/// them.
proof fn lemma_synced_ok(h: DatabaseHandler)
    requires
        entries_ok(h.scratch_v(), h.upstream_languages@),
    ensures
        entries_ok(h.synced(), h.upstream_languages@),
{
    let up = h.upstream_languages@;
    match h.expanded {
        Some(db) => {
            lemma_db_ensured(h.scratch_v(), db);
            let s = h.scratch_v();
            let t = db_ensured(s, db);
            assert(entry_ok(db_entry(s, db), up)) by {
                if db_scratch_pos(s, db) >= 0 {
                    assert(t == s);
                }
            }
            let e = db_entry(s, db);
            lemma_with_db_entry_ok(s, db, (e.0, e.1, e.2, h.port_input.text()), up);
        },
        None => {},
    }
}

/// Normalized configurations are all as the step keeps them, and
/// normalizing them again changes nothing.
pub proof fn lemma_normalized_all_ok(s: Seq<DatabaseConfigView>, up: Seq<Language>)
    ensures
        entries_ok(normalized_all(s, up), up),
        normalized_all(normalized_all(s, up), up) == normalized_all(s, up),
        entries_ok(s, up) ==> normalized_all(s, up) == s,
{
    let t = normalized_all(s, up);
    assert forall|i: int| 0 <= i < t.len() implies entry_ok(#[trigger] t[i], up) by {
        lemma_normalized(s[i], up);
    }
    assert forall|i: int| 0 <= i < t.len() implies #[trigger] normalized_all(t, up)[i] == t[i] by {
        lemma_normalized(s[i], up);
    }
    assert(normalized_all(t, up) =~= t);
    if entries_ok(s, up) {
        assert forall|i: int| 0 <= i < t.len() implies #[trigger] t[i] == s[i] by {
            lemma_normalized(s[i], up);
        }
        assert(t =~= s);
    }
}

impl DatabaseHandler {
    proof fn lemma_choice_keeps_entries_ok(
        self,
        n: DatabaseHandler,
        oc: ProjectConfig,
        nc: ProjectConfig,
        key: Key,
        r: StepResult,
    )
        requires
            self.focus == Focus::Choice,
                entries_ok(self.scratch_v(), self.upstream_languages@),
            self.choice_step(n, oc, nc, key, r),
        ensures
            n.upstream_languages == self.upstream_languages,
            entries_ok(n.scratch_v(), n.upstream_languages@),
            r == StepResult::Done ==> entries_ok(views(nc.database_configs@), self.upstream_languages@),
    {
        let up = self.upstream_languages@;
        let s = self.scratch_v();
        lemma_synced_ok(self);
        let on = if self.cursor == 0 {
            None
        } else {
            Some(spec_db_choices()[self.cursor - 1])
        };
        if is_accept_key(key) && key != Key::Char('q') && key != Key::Down && key != Key::Char('j')
            && key != Key::Up && key != Key::Char('k') && key != Key::Char(' ') {
            match on {
                Some(db) => {
                    lemma_db_ensured(s, db);
                    let e = db_entry(s, db);
                    assert(entry_ok(db_entry(s, db), up)) by {
                        if db_scratch_pos(s, db) >= 0 {
                            assert(db_ensured(s, db) == s);
                        }
                    }
                    lemma_with_db_entry_ok(s, db, e, up);
                },
                None => {
                    if r == StepResult::Done {
                        lemma_normalized_all_ok(db_committed(self.selected@, self.synced()), up);
                    }
                },
            }
        }
    }

    proof fn lemma_open_entry_ok(self)
        requires
            self.expanded is Some,
            entries_ok(self.scratch_v(), self.upstream_languages@),
        ensures
            entry_ok(db_entry(self.scratch_v(), self.expanded->0), self.upstream_languages@),
            db_entry(self.scratch_v(), self.expanded->0).0 == self.expanded->0,
    {
        let s = self.scratch_v();
        let db = self.expanded->0;
        lemma_db_ensured(s, db);
        if db_scratch_pos(s, db) >= 0 {
            assert(db_ensured(s, db) == s);
        }
    }

    proof fn lemma_run_mode_keeps_entries_ok(self, n: DatabaseHandler, i: int)
        requires
            self.expanded is Some,
            spec_database_spec(self.expanded->0).1,
            0 <= i < 3,
            entries_ok(self.scratch_v(), self.upstream_languages@),
            self.after_run_mode(n, i),
        ensures
            entries_ok(n.scratch_v(), n.upstream_languages@),
    {
        self.lemma_open_entry_ok();
        let e = db_entry(self.scratch_v(), self.expanded->0);
        lemma_with_db_entry_ok(
            self.scratch_v(),
            self.expanded->0,
            (e.0, Some(spec_run_modes()[i]), e.2, e.3),
            self.upstream_languages@,
        );
    }

    proof fn lemma_drivers_keep_entries_ok(
        self,
        n: DatabaseHandler,
        key: Key,
        r: StepResult,
        language: Language,
        g: GroupView,
    )
        requires
            self.expanded is Some,
            self.upstream_languages@.contains(language),
            entries_ok(self.scratch_v(), self.upstream_languages@),
            self.drivers_step(n, key, r, language, g),
        ensures
            entries_ok(n.scratch_v(), n.upstream_languages@),
    {
        let up = self.upstream_languages@;
        let s = self.scratch_v();
        let db = self.expanded->0;
        if (key == Key::Char(' ') || key == Key::Enter) && self.col_cursor < g.1.len() {
            self.lemma_open_entry_ok();
            let e = db_entry(s, db);
            let x = (language, g.1[self.col_cursor as int].0);
            let td = toggled_driver(e.2, language, x.1);
            assert forall|j: int| 0 <= j < td.len() implies up.contains(#[trigger] td[j].0) by {
                crate::seqs::lemma_toggled_elements(e.2, x, j);
                if td[j] != x {
                    let w = choose|w: int| 0 <= w < e.2.len() && e.2[w] == td[j];
                    assert(up.contains(e.2[w].0));
                }
            }
            lemma_with_db_entry_ok(s, db, (e.0, e.1, td, e.3), up);
        }
    }

    proof fn lemma_subfield_keeps_entries_ok(self, n: DatabaseHandler, key: Key, r: StepResult)
        requires
            self.wf(),
            self.focus is SubField,
            self.expanded is Some,
            entries_ok(self.scratch_v(), self.upstream_languages@),
            self.subfield_step(n, key, r),
        ensures
            n.upstream_languages == self.upstream_languages,
            entries_ok(n.scratch_v(), n.upstream_languages@),
    {
        let up = self.upstream_languages@;
        let db = self.expanded->0;
        lemma_synced_ok(self);
        lemma_row_scoped(spec_database_spec(db), up, self.row_cursor as int);
        let row = self.rows()[self.row_cursor as int];
        if key == Key::Esc || key == Key::Up || key == Key::Down || key == Key::Tab || key
            == Key::BackTab {
        } else {
            match row {
                DbNavRow::Port => {
                    if key != Key::Enter {
                        self.lemma_open_entry_ok();
                        let e = db_entry(self.scratch_v(), db);
                        lemma_with_db_entry_ok(self.scratch_v(), db, (e.0, e.1, e.2, n.port_input.text()), up);
                    }
                },
                DbNavRow::RunMode => {
                    let idx = run_mode_pos(self.spec_run_mode());
                    if key == Key::Left || key == Key::Char('h') {
                        if idx > 0 {
                            self.lemma_run_mode_keeps_entries_ok(n, idx - 1);
                        }
                    } else if key == Key::Right || key == Key::Char('l') {
                        if idx + 1 < 3 {
                            self.lemma_run_mode_keeps_entries_ok(n, idx + 1);
                        }
                    } else if key == Key::Char(' ') || key == Key::Enter {
                        self.lemma_run_mode_keeps_entries_ok(n, (idx + 1) % 3);
                    }
                },
                DbNavRow::Drivers { language, group_idx } => {
                    self.lemma_drivers_keep_entries_ok(n, key, r, language, self.open_spec().2[group_idx as int]);
                },
                DbNavRow::Confirm => {},
            }
        }
    }
}

/// The entries the step keeps stay as it keeps them, whatever the key:
/// drivers are only ever ticked for a language chosen upstream, and a run
/// mode is only ever set for a database that has run modes. Whatever the
/// entries, what "Next" commits always has both properties (it is
/// normalized, see [`normalized`]).
pub proof fn lemma_key_keeps_entries_ok(
    h: DatabaseHandler,
    n: DatabaseHandler,
    oc: ProjectConfig,
    nc: ProjectConfig,
    key: Key,
    r: StepResult,
)
    requires
        h.wf(),
        entries_ok(h.scratch_v(), h.upstream_languages@),
        h.key_step(n, oc, nc, key, r),
    ensures
        n.upstream_languages == h.upstream_languages,
        entries_ok(n.scratch_v(), n.upstream_languages@),
        r == StepResult::Done ==> entries_ok(views(nc.database_configs@), h.upstream_languages@),
{
    match h.focus {
        Focus::Choice => h.lemma_choice_keeps_entries_ok(n, oc, nc, key, r),
        Focus::SubField(_) => {
            if h.expanded is Some {
                h.lemma_subfield_keeps_entries_ok(n, key, r);
            }
        },
        Focus::Browsing => {},
    }
}

/// The drivers a database's planned "Drivers: " action lists are named by
/// their catalog labels, not by the stored ids: every stored pair the
/// catalog knows contributes the label of its catalog driver, and every
/// name listed is the label of such a stored pair.
pub proof fn lemma_driver_labels_are_catalog_labels(drivers: Seq<(Language, Seq<char>)>)
    ensures
        forall|j: int|
            0 <= j < drivers.len() && (find_driver(spec_all_drivers(drivers[j].0), #[trigger] drivers[j].1)
                is Some) ==> driver_labels(drivers).contains(
                (find_driver(spec_all_drivers(drivers[j].0), drivers[j].1)->0).1,
            ),
        forall|k: int|
            0 <= k < driver_labels(drivers).len() ==> exists|j: int|
                0 <= j < drivers.len() && find_driver(spec_all_drivers(drivers[j].0), drivers[j].1) is Some
                    && #[trigger] driver_labels(drivers)[k] == (find_driver(
                    spec_all_drivers(drivers[j].0),
                    drivers[j].1,
                )->0).1,
    decreases drivers.len(),
{
    if drivers.len() > 0 {
        let p = drivers.drop_last();
        lemma_driver_labels_are_catalog_labels(p);
        let fp = driver_labels(p);
        let f = driver_labels(drivers);
        let last = drivers.last();
        let known = find_driver(spec_all_drivers(last.0), last.1) is Some;
        if known {
            assert(f == fp.push((find_driver(spec_all_drivers(last.0), last.1)->0).1));
        } else {
            assert(f == fp);
        }
        assert forall|j: int|
            0 <= j < drivers.len() && (find_driver(spec_all_drivers(drivers[j].0), #[trigger] drivers[j].1)
                is Some) implies f.contains((find_driver(spec_all_drivers(drivers[j].0), drivers[j].1)->0).1) by {
            if j < p.len() {
                assert(p[j] == drivers[j]);
                assert(find_driver(spec_all_drivers(p[j].0), p[j].1) is Some);
                assert(fp.contains((find_driver(spec_all_drivers(p[j].0), p[j].1)->0).1));
                let w = choose|w: int| 0 <= w < fp.len() && fp[w] == (find_driver(spec_all_drivers(p[j].0), p[j].1)->0).1;
                assert(f[w] == fp[w]);
            } else {
                assert(drivers[j] == last);
                assert(f[fp.len() as int] == (find_driver(spec_all_drivers(last.0), last.1)->0).1);
            }
        }
        assert forall|k: int| 0 <= k < f.len() implies exists|j: int|
            0 <= j < drivers.len() && find_driver(spec_all_drivers(drivers[j].0), drivers[j].1) is Some
                && #[trigger] f[k] == (find_driver(spec_all_drivers(drivers[j].0), drivers[j].1)->0).1 by {
            if k < fp.len() {
                assert(f[k] == fp[k]);
                let j = choose|j: int|
                    0 <= j < p.len() && find_driver(spec_all_drivers(p[j].0), p[j].1) is Some && fp[k]
                        == (find_driver(spec_all_drivers(p[j].0), p[j].1)->0).1;
                assert(drivers[j] == p[j]);
            } else {
                assert(f[k] == (find_driver(spec_all_drivers(last.0), last.1)->0).1);
                assert(drivers[drivers.len() - 1] == last);
            }
        }
    }
}

/// A database's planned actions list its known drivers, by catalog label,
/// in one "Drivers: " line.
pub proof fn lemma_db_actions_name_driver_labels(c: DatabaseConfigView, j: int)
    requires
        0 <= j < c.2.len(),
        find_driver(spec_all_drivers(c.2[j].0), c.2[j].1) is Some,
    ensures
        db_config_actions(c).contains("Drivers: "@ + joined(driver_labels(c.2), ", "@)),
        driver_labels(c.2).contains((find_driver(spec_all_drivers(c.2[j].0), c.2[j].1)->0).1),
{
    lemma_driver_labels_are_catalog_labels(c.2);
    assert(driver_labels(c.2).contains((find_driver(spec_all_drivers(c.2[j].0), c.2[j].1)->0).1));
    let acts = db_config_actions(c);
    assert(acts.last() == "Drivers: "@ + joined(driver_labels(c.2), ", "@));
    assert(acts[acts.len() - 1] == acts.last());
}

} // verus!
