//! The Languages step: tick languages, and per language pick tools, common
//! dependencies and free-text extra dependencies in an expandable sub-panel.

use vstd::prelude::*;

use crate::config::{
    ids_view, spec_languages, views, Language, LanguageConfig, LanguageConfigView, ProjectConfig,
};
use crate::registry::{
    spec_for, spec_is_supported, spec_language_spec, CommonDep, LanguageSpec, LanguageSpecView, Tool,
};
use crate::seqs::{
    advance_flat, at_cell, eq_to, first_index_by, lemma_first_index_absent, lemma_first_index_found,
    lemma_first_index_props, lemma_flat_positions_bounds, flat_positions, spec_advance, toggled,
};
use crate::steps::{Focus, Key, StepResult};
use crate::widgets::text_input::{edited, TextInput};

verus! {

/// Common dependencies are laid out this many to a row.
pub const DEPS_PER_ROW: usize = 3;

/// Label of the custom-dependencies input.
pub const CUSTOM_DEPS_LABEL: &'static str = "Custom dependencies (comma-separated)";

/// A language is supported when its catalog entry has any tool category or
/// common dependency; unsupported languages cannot be ticked or expanded.
pub fn is_supported(lang: Language) -> (r: bool)
    ensures
        r == spec_is_supported(lang),
{
    let spec = spec_for(lang);
    spec.categories.len() > 0 || spec.common_deps.len() > 0
}

/// One interactive row of an expanded language's sub-panel.
#[derive(Debug, Clone, Copy, PartialEq, Eq, Structural)]
pub enum NavRow {
    /// The checkboxes of one tool category.
    CategoryTools { cat_idx: usize },
    /// Common dependencies `start..end` of the catalog entry.
    CommonDeps { start: usize, end: usize },
    /// The free-text custom dependencies input.
    CustomDepsInput,
    /// The Confirm button that closes the sub-panel.
    Confirm,
}

/// Rows of common dependencies `start..n`, at most [`DEPS_PER_ROW`] per row.
pub open spec fn dep_rows_from(start: nat, n: nat) -> Seq<NavRow>
    decreases n - start,
{
    if start >= n {
        Seq::empty()
    } else {
        let end: nat = if n - start > 3 {
            start + 3
        } else {
            n
        };
        seq![NavRow::CommonDeps { start: start as usize, end: end as usize }] + dep_rows_from(end, n)
    }
}

/// The rows of a language's sub-panel: one per tool category, the common
/// dependencies in rows of three, the custom-dependencies input, and always a
/// final Confirm; a language with an empty catalog entry has only Confirm.
pub open spec fn spec_nav_rows(spec: LanguageSpecView) -> Seq<NavRow> {
    if spec.0.len() > 0 || spec.1.len() > 0 {
        Seq::new(spec.0.len(), |i: int| NavRow::CategoryTools { cat_idx: i as usize }) + dep_rows_from(
            0,
            spec.1.len(),
        ) + seq![NavRow::CustomDepsInput, NavRow::Confirm]
    } else {
        seq![NavRow::Confirm]
    }
}

/// A row that refers only to what the catalog entry holds.
pub open spec fn row_valid(row: NavRow, spec: LanguageSpecView) -> bool {
    match row {
        NavRow::CategoryTools { cat_idx } => cat_idx < spec.0.len(),
        NavRow::CommonDeps { start, end } => start < end <= spec.1.len(),
        _ => true,
    }
}

impl NavRow {
    /// How many columns (checkboxes) the row has.
    pub open spec fn spec_col_count(self, spec: LanguageSpecView) -> int {
        match self {
            NavRow::CategoryTools { cat_idx } => spec.0[cat_idx as int].1.len() as int,
            NavRow::CommonDeps { start, end } => end - start,
            _ => 1,
        }
    }

    /// How many columns (checkboxes) the row has.
    pub fn col_count(&self, spec: &LanguageSpec) -> (r: usize)
        requires
            row_valid(*self, spec@),
        ensures
            r == self.spec_col_count(spec@),
    {
        match self {
            NavRow::CategoryTools { cat_idx } => spec.categories[*cat_idx].tools.len(),
            NavRow::CommonDeps { start, end } => *end - *start,
            _ => 1,
        }
    }
}

proof fn lemma_dep_rows_len(start: nat, n: nat)
    ensures
        dep_rows_from(start, n).len() <= if start <= n {
            n - start
        } else {
            0
        },
    decreases n - start,
{
    if start < n {
        let end: nat = if n - start > 3 {
            start + 3
        } else {
            n
        };
        lemma_dep_rows_len(end, n);
    }
}

proof fn lemma_dep_rows_valid(start: nat, n: nat, spec: LanguageSpecView)
    requires
        n == spec.1.len(),
        n <= usize::MAX,
    ensures
        forall|k: int|
            0 <= k < dep_rows_from(start, n).len() ==> row_valid(
                #[trigger] dep_rows_from(start, n)[k],
                spec,
            ) && dep_rows_from(start, n)[k].spec_col_count(spec) >= 1,
    decreases n - start,
{
    if start < n {
        let end: nat = if n - start > 3 {
            start + 3
        } else {
            n
        };
        lemma_dep_rows_valid(end, n, spec);
        let rest = dep_rows_from(end, n);
        let all = dep_rows_from(start, n);
        assert forall|k: int| 0 <= k < all.len() implies row_valid(#[trigger] all[k], spec)
            && all[k].spec_col_count(spec) >= 1 by {
            if k > 0 {
                assert(all[k] == rest[k - 1]);
            }
        }
    }
}

/// Every row of a catalog entry's sub-panel is valid for it; checkbox rows of
/// a non-empty category or of common dependencies have at least one column.
pub proof fn lemma_nav_rows_valid(spec: LanguageSpecView)
    requires
        spec.0.len() <= usize::MAX,
        spec.1.len() <= usize::MAX,
        forall|c: int| 0 <= c < spec.0.len() ==> 1 <= (#[trigger] spec.0[c]).1.len() <= usize::MAX,
    ensures
        spec_nav_rows(spec).len() >= 1,
        spec_nav_rows(spec).len() <= spec.0.len() + spec.1.len() + 2,
        spec_nav_rows(spec).last() == NavRow::Confirm,
        forall|k: int|
            0 <= k < spec_nav_rows(spec).len() ==> row_valid(#[trigger] spec_nav_rows(spec)[k], spec)
                && 1 <= spec_nav_rows(spec)[k].spec_col_count(spec) <= usize::MAX,
{
    lemma_dep_rows_valid(0, spec.1.len(), spec);
    lemma_dep_rows_len(0, spec.1.len());
    let rows = spec_nav_rows(spec);
    if spec.0.len() > 0 || spec.1.len() > 0 {
        let cats = Seq::new(spec.0.len(), |i: int| NavRow::CategoryTools { cat_idx: i as usize });
        let deps = dep_rows_from(0, spec.1.len());
        assert forall|k: int| 0 <= k < rows.len() implies row_valid(#[trigger] rows[k], spec)
            && 1 <= rows[k].spec_col_count(spec) <= usize::MAX by {
            if k < cats.len() {
                assert(rows[k] == cats[k]);
            } else if k < cats.len() + deps.len() {
                assert(rows[k] == deps[k - cats.len()]);
            }
        }
    }
}

/// Every category of the catalog has between one and three tools; an entry
/// has at most seven categories and nine common dependencies.
pub proof fn lemma_categories_nonempty(lang: Language)
    ensures
        forall|c: int|
            0 <= c < spec_language_spec(lang).0.len() ==> 1 <= (#[trigger] spec_language_spec(
                lang,
            ).0[c]).1.len() <= 3,
        spec_language_spec(lang).0.len() <= 7,
        spec_language_spec(lang).1.len() <= 9,
{
}

/// The rows of a language's sub-panel (see [`spec_nav_rows`]).
pub fn nav_rows(spec: &LanguageSpec) -> (r: Vec<NavRow>)
    ensures
        r@ == spec_nav_rows(spec@),
{
    let mut rows: Vec<NavRow> = Vec::new();
    let ncat = spec.categories.len();
    let n = spec.common_deps.len();
    if ncat > 0 || n > 0 {
        let mut cat_idx: usize = 0;
        while cat_idx < ncat
            invariant
                cat_idx <= ncat,
                ncat == spec@.0.len(),
                rows@ == Seq::new(cat_idx as nat, |i: int| NavRow::CategoryTools { cat_idx: i as usize }),
            decreases ncat - cat_idx,
        {
            rows.push(NavRow::CategoryTools { cat_idx });
            cat_idx = cat_idx + 1;
            assert(rows@ =~= Seq::new(cat_idx as nat, |i: int| NavRow::CategoryTools { cat_idx: i as usize }));
        }
        let ghost cats = rows@;
        let mut start: usize = 0;
        assert(cats + dep_rows_from(0, n as nat) =~= rows@ + dep_rows_from(start as nat, n as nat));
        while start < n
            invariant
                start <= n,
                n == spec@.1.len(),
                rows@ + dep_rows_from(start as nat, n as nat) == cats + dep_rows_from(0, n as nat),
            decreases n - start,
        {
            let end = if n - start > DEPS_PER_ROW {
                start + DEPS_PER_ROW
            } else {
                n
            };
            let ghost before = rows@;
            rows.push(NavRow::CommonDeps { start, end });
            assert(dep_rows_from(start as nat, n as nat) == seq![NavRow::CommonDeps { start, end }]
                + dep_rows_from(end as nat, n as nat));
            assert(rows@ + dep_rows_from(end as nat, n as nat) =~= before + dep_rows_from(
                start as nat,
                n as nat,
            ));
            start = end;
        }
        assert(dep_rows_from(n as nat, n as nat) =~= Seq::<NavRow>::empty());
        rows.push(NavRow::CustomDepsInput);
    }
    rows.push(NavRow::Confirm);
    assert(rows@ =~= spec_nav_rows(spec@));
    rows
}

/// Whether a language configuration is for `lang`.
pub open spec fn for_language(lang: Language) -> spec_fn(LanguageConfigView) -> bool {
    |c: LanguageConfigView| c.0 == lang
}

/// The index of the first scratch entry for `lang`, or -1.
pub open spec fn scratch_pos(s: Seq<LanguageConfigView>, lang: Language) -> int {
    first_index_by(s, for_language(lang))
}

/// An empty configuration for `lang`.
pub open spec fn empty_config(lang: Language) -> LanguageConfigView {
    (lang, Seq::empty(), Seq::empty(), Seq::empty())
}

/// The scratch list, with an empty entry for `lang` appended if it has none.
pub open spec fn ensured(s: Seq<LanguageConfigView>, lang: Language) -> Seq<LanguageConfigView> {
    if scratch_pos(s, lang) >= 0 {
        s
    } else {
        s.push(empty_config(lang))
    }
}

/// The scratch list with `lang`'s entry (created if needed) replaced by `f`
/// applied to it.
pub open spec fn ensured_pos(s: Seq<LanguageConfigView>, lang: Language) -> int {
    scratch_pos(ensured(s, lang), lang)
}

/// The scratch list with `lang`'s custom dependencies set to `text`.
pub open spec fn with_custom(s: Seq<LanguageConfigView>, lang: Language, text: Seq<char>) -> Seq<
    LanguageConfigView,
> {
    let e = ensured(s, lang);
    let i = ensured_pos(s, lang);
    e.update(i, (lang, e[i].1, e[i].2, text))
}

/// The configurations committed for the selected languages: each language's
/// first scratch entry, or an empty configuration when it has none.
pub open spec fn committed(selected: Seq<Language>, s: Seq<LanguageConfigView>) -> Seq<
    LanguageConfigView,
> {
    selected.map_values(
        |l: Language|
            if scratch_pos(s, l) >= 0 {
                s[scratch_pos(s, l)]
            } else {
                empty_config(l)
            },
    )
}

/// The language on a choice row: row 0 is "Next", rows `1..=12` the languages.
pub open spec fn lang_at(cursor: int) -> Option<Language> {
    if cursor == 0 {
        None
    } else {
        Some(spec_languages()[cursor - 1])
    }
}

proof fn lemma_ensured(s: Seq<LanguageConfigView>, lang: Language)
    ensures
        0 <= ensured_pos(s, lang) < ensured(s, lang).len(),
        ensured(s, lang)[ensured_pos(s, lang)].0 == lang,
        scratch_pos(s, lang) >= 0 ==> ensured_pos(s, lang) == scratch_pos(s, lang),
        scratch_pos(s, lang) < 0 ==> ensured_pos(s, lang) == s.len(),
        scratch_pos(s, lang) < 0 ==> ensured(s, lang)[ensured_pos(s, lang)] == empty_config(lang),
{
    lemma_first_index_props(s, for_language(lang));
    if scratch_pos(s, lang) < 0 {
        let e = s.push(empty_config(lang));
        assert forall|j: int| 0 <= j < s.len() implies !for_language(lang)(#[trigger] e[j]) by {
            assert(e[j] == s[j]);
        }
        lemma_first_index_found(e, for_language(lang), s.len() as int);
    }
}

/// Input state of the Languages step.
#[derive(Debug)]
pub struct LanguagesHandler {
    /// Choice row: 0 is "Next", `i + 1` is the `i`-th language.
    pub cursor: usize,
    /// Ticked languages, in the order they were ticked.
    pub selected: Vec<Language>,
    /// The language whose sub-panel is open.
    pub expanded: Option<Language>,
    pub focus: Focus,
    /// Row of the open sub-panel.
    pub row_cursor: usize,
    /// Column within that row.
    pub col_cursor: usize,
    pub custom_deps_input: TextInput,
    /// Per-language choices, kept while a language is unticked so that
    /// ticking it again restores them.
    pub scratch: Vec<LanguageConfig>,
}

impl LanguagesHandler {
    /// The scratch entries, as values.
    pub open spec fn scratch_v(&self) -> Seq<LanguageConfigView> {
        views(self.scratch@)
    }

    /// The rows of the open sub-panel (none when nothing is open).
    pub open spec fn rows(&self) -> Seq<NavRow> {
        match self.expanded {
            Some(l) => spec_nav_rows(spec_language_spec(l)),
            None => Seq::empty(),
        }
    }

    /// The scratch entries with the text input's content written into the
    /// open language's entry.
    pub open spec fn synced(&self) -> Seq<LanguageConfigView> {
        match self.expanded {
            Some(l) => with_custom(self.scratch_v(), l, self.custom_deps_input.text()),
            None => self.scratch_v(),
        }
    }

    /// The state the handler keeps: the choice cursor is on a row, and while
    /// a sub-panel has focus its 2-D cursor is on one of its cells.
    pub open spec fn wf(&self) -> bool {
        &&& self.cursor <= spec_languages().len()
        &&& (self.focus is SubField && self.expanded is Some) ==> {
            &&& self.row_cursor < self.rows().len()
            &&& self.col_cursor < self.rows()[self.row_cursor as int].spec_col_count(
                spec_language_spec(self.expanded->0),
            )
        }
    }

    /// The state [`LanguagesHandler::restore_from_config`] leaves.
    pub open spec fn restored(self, n: LanguagesHandler, config: ProjectConfig) -> bool {
        &&& n.selected@ == config.language_configs@.map_values(|c: LanguageConfig| c.language)
        &&& n.scratch_v() == views(config.language_configs@)
        &&& n.cursor == 0
        &&& n.expanded is None
        &&& n.focus == Focus::Choice
        &&& n.row_cursor == 0
        &&& n.col_cursor == 0
        &&& n.custom_deps_input.text().len() == 0
        &&& n.custom_deps_input.pos() == 0
        &&& n.custom_deps_input.title() == CUSTOM_DEPS_LABEL@
    }

    /// Restores the step from the configuration when navigating back: the
    /// configured languages become the ticked ones and their configurations
    /// the scratch entries; everything else is reset.
    pub fn restore_from_config(&mut self, config: &ProjectConfig)
        ensures
            old(self).restored(*final(self), *config),
    {
        let mut selected: Vec<Language> = Vec::new();
        let mut scratch: Vec<LanguageConfig> = Vec::new();
        let mut i: usize = 0;
        while i < config.language_configs.len()
            invariant
                i <= config.language_configs.len(),
                selected@ == config.language_configs@.take(i as int).map_values(
                    |c: LanguageConfig| c.language,
                ),
                views(scratch@) == views(config.language_configs@.take(i as int)),
            decreases config.language_configs.len() - i,
        {
            let ghost prev = scratch@;
            selected.push(config.language_configs[i].language);
            let d = config.language_configs[i].duplicate();
            scratch.push(d);
            assert(views(scratch@) =~= views(prev).push(d@));
            assert(views(config.language_configs@.take(i + 1)) =~= views(
                config.language_configs@.take(i as int),
            ).push(config.language_configs@[i as int]@));
            i = i + 1;
            assert(selected@ =~= config.language_configs@.take(i as int).map_values(
                |c: LanguageConfig| c.language,
            ));
            assert(views(scratch@) =~= views(config.language_configs@.take(i as int)));
        }
        assert(config.language_configs@.take(i as int) =~= config.language_configs@);
        self.selected = selected;
        self.scratch = scratch;
        self.cursor = 0;
        self.expanded = None;
        self.focus = Focus::Choice;
        self.row_cursor = 0;
        self.col_cursor = 0;
        self.custom_deps_input = TextInput::new(CUSTOM_DEPS_LABEL);
    }

    /// Whether `lang` is ticked.
    pub fn is_selected(&self, lang: Language) -> (r: bool)
        ensures
            r == self.selected@.contains(lang),
    {
        let mut i: usize = 0;
        while i < self.selected.len()
            invariant
                i <= self.selected.len(),
                forall|j: int| 0 <= j < i ==> self.selected@[j] != lang,
            decreases self.selected.len() - i,
        {
            if self.selected[i] == lang {
                return true;
            }
            i = i + 1;
        }
        false
    }

    fn scratch_index(&self, lang: Language) -> (r: Option<usize>)
        ensures
            match r {
                Some(i) => i == scratch_pos(self.scratch_v(), lang) && i < self.scratch@.len(),
                None => scratch_pos(self.scratch_v(), lang) < 0,
            },
    {
        let ghost s = self.scratch_v();
        let mut i: usize = 0;
        while i < self.scratch.len()
            invariant
                i <= self.scratch.len(),
                s == self.scratch_v(),
                forall|j: int| 0 <= j < i ==> !for_language(lang)(#[trigger] s[j]),
            decreases self.scratch.len() - i,
        {
            if self.scratch[i].language == lang {
                assert(for_language(lang)(s[i as int]));
                proof {
                    lemma_first_index_found(s, for_language(lang), i as int);
                }
                return Some(i);
            }
            assert(!for_language(lang)(s[i as int]));
            i = i + 1;
        }
        proof {
            lemma_first_index_absent(s, for_language(lang));
        }
        None
    }

    /// The scratch entry for `lang`, if there is one.
    pub fn scratch_for(&self, lang: Language) -> (r: Option<&LanguageConfig>)
        ensures
            match r {
                Some(c) => scratch_pos(self.scratch_v(), lang) >= 0 && c@ == self.scratch_v()[scratch_pos(
                    self.scratch_v(),
                    lang,
                )],
                None => scratch_pos(self.scratch_v(), lang) < 0,
            },
    {
        match self.scratch_index(lang) {
            Some(i) => Some(&self.scratch[i]),
            None => None,
        }
    }

    /// Makes sure `lang` has a scratch entry and returns its index.
    fn ensure_scratch(&mut self, lang: Language) -> (r: usize)
        ensures
            final(self).scratch_v() == ensured(old(self).scratch_v(), lang),
            r == ensured_pos(old(self).scratch_v(), lang),
            r < final(self).scratch@.len(),
            *final(self) == (LanguagesHandler { scratch: final(self).scratch, ..*old(self) }),
    {
        proof {
            lemma_ensured(self.scratch_v(), lang);
        }
        match self.scratch_index(lang) {
            Some(i) => i,
            None => {
                self.scratch.push(LanguageConfig::new(lang));
                assert(self.scratch_v() =~= ensured(old(self).scratch_v(), lang));
                self.scratch.len() - 1
            },
        }
    }

    /// The scratch entry for `lang`, created empty if it has none.
    pub fn scratch_mut_for(&mut self, lang: Language) -> (r: &mut LanguageConfig)
        ensures
            (*r)@ == ensured(old(self).scratch_v(), lang)[ensured_pos(old(self).scratch_v(), lang)],
            final(self).scratch@.len() == ensured(old(self).scratch_v(), lang).len(),
            final(self).scratch@[ensured_pos(old(self).scratch_v(), lang)] == *final(r),
            forall|j: int|
                0 <= j < final(self).scratch@.len() && j != ensured_pos(old(self).scratch_v(), lang)
                    ==> (#[trigger] final(self).scratch@[j])@ == ensured(old(self).scratch_v(), lang)[j],
            *final(self) == (LanguagesHandler { scratch: final(self).scratch, ..*old(self) }),
    {
        let i = self.ensure_scratch(lang);
        &mut self.scratch[i]
    }

    /// Sets the custom dependencies of `lang`'s scratch entry (created if
    /// needed).
    fn set_custom_deps(&mut self, lang: Language, value: String)
        ensures
            final(self).scratch_v() == with_custom(old(self).scratch_v(), lang, value@),
            *final(self) == (LanguagesHandler { scratch: final(self).scratch, ..*old(self) }),
    {
        proof {
            lemma_ensured(self.scratch_v(), lang);
        }
        let i = self.ensure_scratch(lang);
        let old_entry = self.scratch[i].duplicate();
        let entry = LanguageConfig {
            language: old_entry.language,
            tools: old_entry.tools,
            common_deps: old_entry.common_deps,
            custom_deps: value,
        };
        self.scratch.set(i, entry);
        assert(self.scratch_v() =~= with_custom(old(self).scratch_v(), lang, value@));
    }

    /// Opens `lang`'s sub-panel: focus moves into it at its first cell, and
    /// the text input shows the entry's custom dependencies.
    pub fn expand(&mut self, lang: Language)
        ensures
            final(self).scratch_v() == ensured(old(self).scratch_v(), lang),
            final(self).expanded == Some(lang),
            final(self).focus == Focus::SubField(0),
            final(self).row_cursor == 0,
            final(self).col_cursor == 0,
            final(self).custom_deps_input.title() == CUSTOM_DEPS_LABEL@,
            final(self).custom_deps_input.text() == ensured(old(self).scratch_v(), lang)[ensured_pos(
                old(self).scratch_v(),
                lang,
            )].3,
            final(self).custom_deps_input.pos() == 0,
            final(self).cursor == old(self).cursor,
            final(self).selected == old(self).selected,
    {
        let i = self.ensure_scratch(lang);
        let starting = self.scratch[i].custom_deps.clone();
        self.expanded = Some(lang);
        self.focus = Focus::SubField(0);
        self.row_cursor = 0;
        self.col_cursor = 0;
        let mut input = TextInput::new(CUSTOM_DEPS_LABEL);
        input.set_value(starting.as_str());
        self.custom_deps_input = input;
    }

    /// Writes the text input into the open language's scratch entry, keeping
    /// the sub-panel open.
    pub fn collapse_persist_keep_expanded(&mut self)
        ensures
            final(self).scratch_v() == old(self).synced(),
            *final(self) == (LanguagesHandler { scratch: final(self).scratch, ..*old(self) }),
    {
        if let Some(lang) = self.expanded {
            let value = self.custom_deps_input.value();
            self.set_custom_deps(lang, value);
        }
    }

    /// Writes the text input into the open language's scratch entry and
    /// closes the sub-panel; focus returns to the choice list.
    pub fn collapse_persist(&mut self)
        ensures
            final(self).scratch_v() == old(self).synced(),
            *final(self) == (LanguagesHandler {
                scratch: final(self).scratch,
                expanded: None,
                focus: Focus::Choice,
                ..*old(self)
            }),
    {
        self.collapse_persist_keep_expanded();
        self.expanded = None;
        self.focus = Focus::Choice;
    }

    /// Commits the ticked languages to the configuration, in tick order, each
    /// with its scratch entry (after writing the text input into it).
    pub fn commit_to_config(&mut self, config: &mut ProjectConfig)
        ensures
            final(self).scratch_v() == old(self).synced(),
            *final(self) == (LanguagesHandler { scratch: final(self).scratch, ..*old(self) }),
            views(final(config).language_configs@) == committed(old(self).selected@, old(self).synced()),
            *final(config) == (ProjectConfig {
                language_configs: final(config).language_configs,
                ..*old(config)
            }),
    {
        self.collapse_persist_keep_expanded();
        let mut new_configs: Vec<LanguageConfig> = Vec::new();
        let mut i: usize = 0;
        while i < self.selected.len()
            invariant
                i <= self.selected.len(),
                views(new_configs@) == committed(self.selected@.take(i as int), self.scratch_v()),
            decreases self.selected.len() - i,
        {
            let lang = self.selected[i];
            let cfg = match self.scratch_index(lang) {
                Some(idx) => self.scratch[idx].duplicate(),
                None => LanguageConfig::new(lang),
            };
            let ghost prev = new_configs@;
            new_configs.push(cfg);
            assert(views(new_configs@) =~= views(prev).push(cfg@));
            assert(committed(self.selected@.take(i + 1), self.scratch_v()) =~= committed(
                self.selected@.take(i as int),
                self.scratch_v(),
            ).push(committed(self.selected@, self.scratch_v())[i as int]));
            i = i + 1;
        }
        assert(self.selected@.take(i as int) =~= self.selected@);
        config.language_configs = new_configs;
    }

    /// The rows of the open sub-panel (empty when none is open).
    pub fn current_nav_rows(&self) -> (r: Vec<NavRow>)
        ensures
            r@ == self.rows(),
    {
        match self.expanded {
            Some(l) => nav_rows(&spec_for(l)),
            None => Vec::new(),
        }
    }

    /// The row under the 2-D cursor, if any.
    pub fn current_row(&self) -> (r: Option<NavRow>)
        ensures
            r == (if self.row_cursor < self.rows().len() {
                Some(self.rows()[self.row_cursor as int])
            } else {
                None::<NavRow>
            }),
    {
        let rows = self.current_nav_rows();
        if self.row_cursor < rows.len() {
            Some(rows[self.row_cursor])
        } else {
            None
        }
    }

    /// Keeps the column inside the current row: at most its last column (0
    /// when there is no current row).
    pub fn clamp_col(&mut self, spec: &LanguageSpec)
        requires
            old(self).expanded is Some ==> spec@ == spec_language_spec(old(self).expanded->0),
        ensures
            final(self).col_cursor == (if old(self).row_cursor < old(self).rows().len() {
                let cnt = old(self).rows()[old(self).row_cursor as int].spec_col_count(spec@);
                if old(self).col_cursor as int <= cnt - 1 {
                    old(self).col_cursor as int
                } else if cnt >= 1 {
                    cnt - 1
                } else {
                    0
                }
            } else {
                0
            }),
            *final(self) == (LanguagesHandler { col_cursor: final(self).col_cursor, ..*old(self) }),
    {
        match self.current_row() {
            Some(row) => {
                proof {
                    let l = self.expanded->0;
                    lemma_categories_nonempty(l);
                    lemma_nav_rows_valid(spec_language_spec(l));
                }
                let cnt = row.col_count(spec);
                let max = if cnt > 0 {
                    cnt - 1
                } else {
                    0
                };
                if self.col_cursor > max {
                    self.col_cursor = max;
                }
            },
            None => {
                self.col_cursor = 0;
            },
        }
    }

    /// Whether `tool` is ticked in `lang`'s scratch entry.
    pub fn is_tool_checked(&self, lang: Language, tool: &Tool) -> (r: bool)
        ensures
            r == (scratch_pos(self.scratch_v(), lang) >= 0 && self.scratch_v()[scratch_pos(
                self.scratch_v(),
                lang,
            )].1.contains(tool.id@)),
    {
        match self.scratch_for(lang) {
            Some(c) => contains_id(&c.tools, tool.id),
            None => false,
        }
    }

    /// Whether `dep` is ticked in `lang`'s scratch entry.
    pub fn is_common_dep_checked(&self, lang: Language, dep: &CommonDep) -> (r: bool)
        ensures
            r == (scratch_pos(self.scratch_v(), lang) >= 0 && self.scratch_v()[scratch_pos(
                self.scratch_v(),
                lang,
            )].2.contains(dep.id@)),
    {
        match self.scratch_for(lang) {
            Some(c) => contains_id(&c.common_deps, dep.id),
            None => false,
        }
    }

    /// Number of choice rows: "Next" plus one per language.
    pub fn choice_count(&self) -> (r: usize)
        ensures
            r == spec_languages().len() + 1,
    {
        Language::count() + 1
    }

    /// The language on the cursor's row, `None` on the "Next" row.
    pub fn cursor_lang(&self) -> (r: Option<Language>)
        requires
            self.cursor <= spec_languages().len(),
        ensures
            r == lang_at(self.cursor as int),
    {
        if self.cursor == 0 {
            None
        } else {
            Some(Language::at(self.cursor - 1))
        }
    }

    /// Ticks `lang` if it is not ticked, unticks it otherwise.
    pub fn toggle_lang(&mut self, lang: Language)
        ensures
            final(self).selected@ == toggled(old(self).selected@, lang),
            *final(self) == (LanguagesHandler { selected: final(self).selected, ..*old(self) }),
    {
        let ghost s = self.selected@;
        let mut i: usize = 0;
        while i < self.selected.len()
            invariant
                i <= self.selected.len(),
                s == self.selected@,
                *self == *old(self),
                forall|j: int| 0 <= j < i ==> !eq_to(lang)(#[trigger] s[j]),
            decreases self.selected.len() - i,
        {
            if self.selected[i] == lang {
                assert(eq_to(lang)(s[i as int]));
                proof {
                    lemma_first_index_found(s, eq_to(lang), i as int);
                }
                self.selected.remove(i);
                return;
            }
            assert(!eq_to(lang)(s[i as int]));
            i = i + 1;
        }
        proof {
            lemma_first_index_absent(s, eq_to(lang));
        }
        self.selected.push(lang);
    }
}

/// Whether `id` is one of `ids`.
pub fn contains_id(ids: &Vec<&'static str>, id: &str) -> (r: bool)
    ensures
        r == ids_view(ids@).contains(id@),
{
    let mut i: usize = 0;
    while i < ids.len()
        invariant
            i <= ids.len(),
            forall|j: int| 0 <= j < i ==> ids@[j]@ != id@,
        decreases ids.len() - i,
    {
        if crate::text::str_eq(ids[i], id) {
            assert(ids_view(ids@)[i as int] == id@);
            return true;
        }
        i = i + 1;
    }
    assert forall|j: int| 0 <= j < ids_view(ids@).len() implies ids_view(ids@)[j] != id@ by {
        assert(ids_view(ids@)[j] == ids@[j]@);
    }
    false
}

impl LanguagesHandler {
    /// The state a fresh one starts in (see `Default`).
    pub open spec fn is_fresh(self) -> bool {
        &&& self.cursor == 0
        &&& self.selected@.len() == 0
        &&& self.expanded is None
        &&& self.focus == Focus::Choice
        &&& self.row_cursor == 0
        &&& self.col_cursor == 0
        &&& self.custom_deps_input.title() == CUSTOM_DEPS_LABEL@
        &&& self.custom_deps_input.text().len() == 0
        &&& self.custom_deps_input.pos() == 0
        &&& self.scratch@.len() == 0
    }
}

impl Default for LanguagesHandler {
    fn default() -> (r: LanguagesHandler)
        ensures
            r.is_fresh(),
    {
        LanguagesHandler {
            cursor: 0,
            selected: Vec::new(),
            expanded: None,
            focus: Focus::Choice,
            row_cursor: 0,
            col_cursor: 0,
            custom_deps_input: TextInput::new(CUSTOM_DEPS_LABEL),
            scratch: Vec::new(),
        }
    }
}

/// `ids` with the first occurrence of `id` removed, or `id` appended when
/// it is absent.
pub fn toggle_id(ids: &mut Vec<&'static str>, id: &'static str)
    ensures
        ids_view(final(ids)@) == toggled(ids_view(old(ids)@), id@),
{
    let ghost s = ids_view(ids@);
    let mut i: usize = 0;
    while i < ids.len()
        invariant
            i <= ids.len(),
            s == ids_view(ids@),
            *ids == *old(ids),
            forall|j: int| 0 <= j < i ==> !eq_to(id@)(#[trigger] s[j]),
        decreases ids.len() - i,
    {
        if crate::text::str_eq(ids[i], id) {
            assert(s[i as int] == ids@[i as int]@);
            assert(eq_to(id@)(s[i as int]));
            proof {
                lemma_first_index_found(s, eq_to(id@), i as int);
            }
            ids.remove(i);
            assert(ids_view(ids@) =~= s.remove(i as int));
            return;
        }
        assert(s[i as int] == ids@[i as int]@);
        i = i + 1;
    }
    proof {
        lemma_first_index_absent(s, eq_to(id@));
    }
    ids.push(id);
    assert(ids_view(ids@) =~= s.push(id@));
}

/// The scratch list with `lang`'s entry (created if needed) replaced by `e`.
pub open spec fn with_entry(s: Seq<LanguageConfigView>, lang: Language, e: LanguageConfigView) -> Seq<
    LanguageConfigView,
> {
    ensured(s, lang).update(ensured_pos(s, lang), e)
}

/// The clamped column: `col` if it fits in a row of `cnt` columns, else the
/// last column (0 for an empty row).
pub open spec fn clamped(col: usize, cnt: int) -> usize {
    if col as int <= cnt - 1 {
        col
    } else if cnt >= 1 {
        (cnt - 1) as usize
    } else {
        0
    }
}

/// The column counts of a list of rows.
pub open spec fn row_counts(rows: Seq<NavRow>, spec: LanguageSpecView) -> Seq<usize> {
    rows.map_values(|r: NavRow| r.spec_col_count(spec) as usize)
}

impl LanguagesHandler {
    /// The catalog entry of the open language.
    pub open spec fn open_spec(&self) -> LanguageSpecView {
        spec_language_spec(self.expanded->0)
    }

    /// The scratch list after toggling the checkbox under the 2-D cursor
    /// (unchanged when the cursor is not on a checkbox).
    pub open spec fn toggled_scratch(&self) -> Seq<LanguageConfigView> {
        let s = self.scratch_v();
        match self.expanded {
            None => s,
            Some(lang) => if self.row_cursor < self.rows().len() {
                let e = ensured(s, lang)[ensured_pos(s, lang)];
                match self.rows()[self.row_cursor as int] {
                    NavRow::CategoryTools { cat_idx } => with_entry(
                        s,
                        lang,
                        (
                            lang,
                            toggled(e.1, self.open_spec().0[cat_idx as int].1[self.col_cursor as int].0),
                            e.2,
                            e.3,
                        ),
                    ),
                    NavRow::CommonDeps { start, end } => with_entry(
                        s,
                        lang,
                        (lang, e.1, toggled(e.2, self.open_spec().1[start + self.col_cursor].0), e.3),
                    ),
                    _ => s,
                }
            } else {
                s
            },
        }
    }

    /// Toggles the checkbox under the 2-D cursor (a tool or a common
    /// dependency) in the open language's scratch entry; no-op elsewhere.
    pub fn toggle_focused_checkbox(&mut self)
        requires
            old(self).wf(),
            old(self).focus is SubField,
        ensures
            final(self).scratch_v() == old(self).toggled_scratch(),
            *final(self) == (LanguagesHandler { scratch: final(self).scratch, ..*old(self) }),
    {
        let lang = match self.expanded {
            Some(l) => l,
            None => {
                return;
            },
        };
        let row = match self.current_row() {
            Some(r) => r,
            None => {
                return;
            },
        };
        let spec = spec_for(lang);
        proof {
            lemma_categories_nonempty(lang);
            lemma_nav_rows_valid(spec@);
            lemma_ensured(self.scratch_v(), lang);
        }
        match row {
            NavRow::CategoryTools { cat_idx } => {
                assert(row_valid(row, spec@));
                let tool_id = spec.categories[cat_idx].tools[self.col_cursor].id;
                assert(tool_id@ == old(self).open_spec().0[cat_idx as int].1[self.col_cursor as int].0);
                self.toggle_tool(lang, tool_id);
            },
            NavRow::CommonDeps { start, end } => {
                assert(row_valid(row, spec@));
                let dep_id = spec.common_deps[start + self.col_cursor].id;
                assert(dep_id@ == old(self).open_spec().1[start + self.col_cursor].0);
                self.toggle_dep(lang, dep_id);
            },
            _ => {},
        }
    }

    fn toggle_tool(&mut self, lang: Language, id: &'static str)
        ensures
            final(self).scratch_v() == with_entry(
                old(self).scratch_v(),
                lang,
                (
                    lang,
                    toggled(ensured(old(self).scratch_v(), lang)[ensured_pos(old(self).scratch_v(), lang)].1, id@),
                    ensured(old(self).scratch_v(), lang)[ensured_pos(old(self).scratch_v(), lang)].2,
                    ensured(old(self).scratch_v(), lang)[ensured_pos(old(self).scratch_v(), lang)].3,
                ),
            ),
            *final(self) == (LanguagesHandler { scratch: final(self).scratch, ..*old(self) }),
    {
        proof {
            lemma_ensured(self.scratch_v(), lang);
        }
        let i = self.ensure_scratch(lang);
        let mut entry = self.scratch[i].duplicate();
        toggle_id(&mut entry.tools, id);
        self.scratch.set(i, entry);
        assert(self.scratch_v() =~= with_entry(
            old(self).scratch_v(),
            lang,
            (
                lang,
                toggled(ensured(old(self).scratch_v(), lang)[ensured_pos(old(self).scratch_v(), lang)].1, id@),
                ensured(old(self).scratch_v(), lang)[ensured_pos(old(self).scratch_v(), lang)].2,
                ensured(old(self).scratch_v(), lang)[ensured_pos(old(self).scratch_v(), lang)].3,
            ),
        ));
    }

    fn toggle_dep(&mut self, lang: Language, id: &'static str)
        ensures
            final(self).scratch_v() == with_entry(
                old(self).scratch_v(),
                lang,
                (
                    lang,
                    ensured(old(self).scratch_v(), lang)[ensured_pos(old(self).scratch_v(), lang)].1,
                    toggled(ensured(old(self).scratch_v(), lang)[ensured_pos(old(self).scratch_v(), lang)].2, id@),
                    ensured(old(self).scratch_v(), lang)[ensured_pos(old(self).scratch_v(), lang)].3,
                ),
            ),
            *final(self) == (LanguagesHandler { scratch: final(self).scratch, ..*old(self) }),
    {
        proof {
            lemma_ensured(self.scratch_v(), lang);
        }
        let i = self.ensure_scratch(lang);
        let mut entry = self.scratch[i].duplicate();
        toggle_id(&mut entry.common_deps, id);
        self.scratch.set(i, entry);
        assert(self.scratch_v() =~= with_entry(
            old(self).scratch_v(),
            lang,
            (
                lang,
                ensured(old(self).scratch_v(), lang)[ensured_pos(old(self).scratch_v(), lang)].1,
                toggled(ensured(old(self).scratch_v(), lang)[ensured_pos(old(self).scratch_v(), lang)].2, id@),
                ensured(old(self).scratch_v(), lang)[ensured_pos(old(self).scratch_v(), lang)].3,
            ),
        ));
    }

    /// Moves the 2-D cursor one cell forward (or backward) as if the rows'
    /// cells were laid out in one line, wrapping at both ends.
    pub fn advance_flattened(&mut self, rows: &Vec<NavRow>, spec: &LanguageSpec, backward: bool)
        requires
            forall|k: int| 0 <= k < rows@.len() ==> row_valid(#[trigger] rows@[k], spec@),
        ensures
            match spec_advance(row_counts(rows@, spec@), old(self).row_cursor, old(self).col_cursor, backward) {
                Some((r, c)) => *final(self) == (LanguagesHandler {
                    row_cursor: r,
                    col_cursor: c,
                    ..*old(self)
                }),
                None => *final(self) == *old(self),
            },
    {
        if rows.len() == 0 {
            assert(row_counts(rows@, spec@) =~= Seq::<usize>::empty());
            return;
        }
        let mut counts: Vec<usize> = Vec::new();
        let mut k: usize = 0;
        while k < rows.len()
            invariant
                k <= rows.len(),
                forall|j: int| 0 <= j < rows@.len() ==> row_valid(#[trigger] rows@[j], spec@),
                counts@ == row_counts(rows@, spec@).take(k as int),
            decreases rows.len() - k,
        {
            let row = rows[k];
            assert(row_valid(rows@[k as int], spec@));
            counts.push(row.col_count(spec));
            k = k + 1;
            assert(counts@ =~= row_counts(rows@, spec@).take(k as int));
        }
        assert(row_counts(rows@, spec@).take(k as int) =~= row_counts(rows@, spec@));
        match advance_flat(&counts, self.row_cursor, self.col_cursor, backward) {
            Some((r, c)) => {
                self.row_cursor = r;
                self.col_cursor = c;
            },
            None => {},
        }
    }

    /// True while focus is inside a sub-panel.
    pub fn in_details(&self) -> (r: bool)
        ensures
            r == self.focus is SubField,
    {
        match self.focus {
            Focus::SubField(_) => true,
            _ => false,
        }
    }

    /// True while a sub-panel is open, wherever focus sits.
    pub fn is_expanded(&self) -> (r: bool)
        ensures
            r == self.expanded is Some,
    {
        self.expanded.is_some()
    }
}

impl LanguagesHandler {
    /// Up inside the sub-panel: from the first row focus returns to the
    /// choice list (writing the text input back, the panel stays open);
    /// otherwise the cursor moves one row up, its column clamped.
    pub open spec fn after_up(self, n: LanguagesHandler) -> bool {
        if self.row_cursor == 0 {
            n.scratch_v() == self.synced() && n == (LanguagesHandler {
                scratch: n.scratch,
                focus: Focus::Choice,
                ..self
            })
        } else {
            n == (LanguagesHandler {
                row_cursor: (self.row_cursor - 1) as usize,
                col_cursor: clamped(
                    self.col_cursor,
                    self.rows()[self.row_cursor - 1].spec_col_count(self.open_spec()),
                ),
                ..self
            })
        }
    }

    /// Down inside the sub-panel: one row down (column clamped) unless on
    /// the last row.
    pub open spec fn after_down(self, n: LanguagesHandler) -> bool {
        if self.row_cursor + 1 < self.rows().len() {
            n == (LanguagesHandler {
                row_cursor: (self.row_cursor + 1) as usize,
                col_cursor: clamped(
                    self.col_cursor,
                    self.rows()[self.row_cursor + 1].spec_col_count(self.open_spec()),
                ),
                ..self
            })
        } else {
            n == self
        }
    }

    /// Closing the sub-panel: the text input is written back, nothing is
    /// open, focus is on the choice list.
    pub open spec fn after_collapse(self, n: LanguagesHandler) -> bool {
        n.scratch_v() == self.synced() && n == (LanguagesHandler {
            scratch: n.scratch,
            expanded: None,
            focus: Focus::Choice,
            ..self
        })
    }

    /// Tab / BackTab: the 2-D cursor steps through the flattened cells.
    pub open spec fn after_advance(self, n: LanguagesHandler, backward: bool) -> bool {
        match spec_advance(
            row_counts(self.rows(), self.open_spec()),
            self.row_cursor,
            self.col_cursor,
            backward,
        ) {
            Some((r, c)) => n == (LanguagesHandler { row_cursor: r, col_cursor: c, ..self }),
            None => n == self,
        }
    }

    /// A key on the custom-dependencies row edits the text input, and the
    /// open language's scratch entry follows the text.
    pub open spec fn after_text_key(self, n: LanguagesHandler, key: Key) -> bool {
        &&& (n.custom_deps_input.text(), n.custom_deps_input.pos()) == edited(
            self.custom_deps_input.text(),
            self.custom_deps_input.pos(),
            key,
        )
        &&& n.custom_deps_input.title() == self.custom_deps_input.title()
        &&& n.scratch_v() == with_custom(self.scratch_v(), self.expanded->0, n.custom_deps_input.text())
        &&& n == (LanguagesHandler {
            scratch: n.scratch,
            custom_deps_input: n.custom_deps_input,
            ..self
        })
    }

    /// Opening `lang`'s sub-panel (see [`LanguagesHandler::expand`]).
    pub open spec fn after_expand(self, n: LanguagesHandler, lang: Language) -> bool {
        &&& n.scratch_v() == ensured(self.scratch_v(), lang)
        &&& n.expanded == Some(lang)
        &&& n.focus == Focus::SubField(0)
        &&& n.row_cursor == 0
        &&& n.col_cursor == 0
        &&& n.custom_deps_input.title() == CUSTOM_DEPS_LABEL@
        &&& n.custom_deps_input.text() == ensured(self.scratch_v(), lang)[ensured_pos(
            self.scratch_v(),
            lang,
        )].3
        &&& n.custom_deps_input.pos() == 0
        &&& n.cursor == self.cursor
    }

    /// Choice-list keys: q quits; Down/j and Up/k move the cursor; Space
    /// unticks a ticked supported language; Enter/Right/l on "Next" commits
    /// and advances, on a supported language ticks it and opens its
    /// sub-panel, on an unsupported one does nothing; Left/h closes the open
    /// sub-panel, or goes back when none is open.
    pub open spec fn choice_step(
        self,
        n: LanguagesHandler,
        oc: ProjectConfig,
        nc: ProjectConfig,
        key: Key,
        r: StepResult,
    ) -> bool {
        let unchanged_config = nc == oc;
        match key {
            Key::Char('q') => r == StepResult::Quit && n == self && unchanged_config,
            Key::Down | Key::Char('j') => r == StepResult::Continue && unchanged_config && n == (
            LanguagesHandler {
                cursor: if self.cursor + 1 < spec_languages().len() + 1 {
                    (self.cursor + 1) as usize
                } else {
                    self.cursor
                },
                ..self
            }),
            Key::Up | Key::Char('k') => r == StepResult::Continue && unchanged_config && n == (
            LanguagesHandler {
                cursor: if self.cursor > 0 {
                    (self.cursor - 1) as usize
                } else {
                    0
                },
                ..self
            }),
            Key::Char(' ') => r == StepResult::Continue && unchanged_config && match lang_at(
                self.cursor as int,
            ) {
                Some(l) => if spec_is_supported(l) && self.selected@.contains(l) {
                    n.selected@ == toggled(self.selected@, l) && n == (LanguagesHandler {
                        selected: n.selected,
                        ..self
                    })
                } else {
                    n == self
                },
                None => n == self,
            },
            Key::Enter | Key::Right | Key::Char('l') => match lang_at(self.cursor as int) {
                None => {
                    &&& r == StepResult::Done
                    &&& n.scratch_v() == self.synced()
                    &&& n == (LanguagesHandler { scratch: n.scratch, ..self })
                    &&& views(nc.language_configs@) == committed(self.selected@, self.synced())
                    &&& nc == (ProjectConfig { language_configs: nc.language_configs, ..oc })
                },
                Some(l) => if spec_is_supported(l) {
                    &&& r == StepResult::Continue
                    &&& unchanged_config
                    &&& n.selected@ == (if self.selected@.contains(l) {
                        self.selected@
                    } else {
                        self.selected@.push(l)
                    })
                    &&& self.after_expand(n, l)
                } else {
                    r == StepResult::Continue && unchanged_config && n == self
                },
            },
            Key::Left | Key::Char('h') => unchanged_config && if self.expanded is Some {
                r == StepResult::Continue && self.after_collapse(n)
            } else {
                r == StepResult::Back && n == self
            },
            _ => r == StepResult::Continue && unchanged_config && n == self,
        }
    }

    /// Sub-panel keys. Esc returns focus to the choice list; Up/Down move
    /// between rows (Up from the first row returns to the choice list);
    /// Tab/BackTab step through the cells. On Confirm: q quits, Space/Enter
    /// close the panel, k/j act as Up/Down. On the text input: Enter closes
    /// the panel and other keys edit the text. On a checkbox row: q quits,
    /// k/j act as Up/Down, Left/h and Right/l move between checkboxes,
    /// Space/Enter toggle the one under the cursor.
    pub open spec fn subfield_step(self, n: LanguagesHandler, key: Key, r: StepResult) -> bool {
        let row = self.rows()[self.row_cursor as int];
        match key {
            Key::Esc => r == StepResult::Continue && n == (LanguagesHandler { focus: Focus::Choice, ..self }),
            Key::Up => r == StepResult::Continue && self.after_up(n),
            Key::Down => r == StepResult::Continue && self.after_down(n),
            Key::Tab => r == StepResult::Continue && self.after_advance(n, false),
            Key::BackTab => r == StepResult::Continue && self.after_advance(n, true),
            _ => if row == NavRow::Confirm {
                match key {
                    Key::Char('q') => r == StepResult::Quit && n == self,
                    Key::Char(' ') | Key::Enter => r == StepResult::Continue && self.after_collapse(n),
                    Key::Char('k') => r == StepResult::Continue && self.after_up(n),
                    Key::Char('j') => r == StepResult::Continue && self.after_down(n),
                    _ => r == StepResult::Continue && n == self,
                }
            } else if row == NavRow::CustomDepsInput {
                r == StepResult::Continue && if key == Key::Enter {
                    self.after_collapse(n)
                } else {
                    self.after_text_key(n, key)
                }
            } else {
                match key {
                    Key::Char('q') => r == StepResult::Quit && n == self,
                    Key::Char('k') => r == StepResult::Continue && self.after_up(n),
                    Key::Char('j') => r == StepResult::Continue && self.after_down(n),
                    Key::Left | Key::Char('h') => r == StepResult::Continue && n == (LanguagesHandler {
                        col_cursor: if self.col_cursor > 0 {
                            (self.col_cursor - 1) as usize
                        } else {
                            0
                        },
                        ..self
                    }),
                    Key::Right | Key::Char('l') => r == StepResult::Continue && n == (LanguagesHandler {
                        col_cursor: if self.col_cursor + 1 < row.spec_col_count(self.open_spec()) {
                            (self.col_cursor + 1) as usize
                        } else {
                            self.col_cursor
                        },
                        ..self
                    }),
                    Key::Char(' ') | Key::Enter => r == StepResult::Continue && n.scratch_v()
                        == self.toggled_scratch() && n == (LanguagesHandler { scratch: n.scratch, ..self }),
                    _ => r == StepResult::Continue && n == self,
                }
            },
        }
    }

    fn handle_choice_input(&mut self, key: Key, config: &mut ProjectConfig) -> (r: StepResult)
        requires
            old(self).wf(),
            old(self).focus == Focus::Choice,
        ensures
            old(self).choice_step(*final(self), *old(config), *final(config), key, r),
    {
        match key {
            Key::Char('q') => StepResult::Quit,
            Key::Down | Key::Char('j') => {
                if self.cursor + 1 < self.choice_count() {
                    self.cursor = self.cursor + 1;
                }
                StepResult::Continue
            },
            Key::Up | Key::Char('k') => {
                if self.cursor > 0 {
                    self.cursor = self.cursor - 1;
                }
                StepResult::Continue
            },
            Key::Char(' ') => {
                match self.cursor_lang() {
                    Some(lang) => {
                        if is_supported(lang) && self.is_selected(lang) {
                            self.toggle_lang(lang);
                        }
                    },
                    None => {},
                }
                StepResult::Continue
            },
            Key::Enter | Key::Right | Key::Char('l') => match self.cursor_lang() {
                None => {
                    self.commit_to_config(config);
                    StepResult::Done
                },
                Some(lang) => {
                    if is_supported(lang) {
                        if !self.is_selected(lang) {
                            self.selected.push(lang);
                        }
                        self.expand(lang);
                    }
                    StepResult::Continue
                },
            },
            Key::Left | Key::Char('h') => {
                if self.expanded.is_some() {
                    self.collapse_persist();
                    StepResult::Continue
                } else {
                    StepResult::Back
                }
            },
            _ => StepResult::Continue,
        }
    }

    fn up_in_subfield(&mut self, spec: &LanguageSpec)
        requires
            old(self).expanded is Some,
            spec@ == old(self).open_spec(),
            old(self).row_cursor < old(self).rows().len(),
        ensures
            old(self).after_up(*final(self)),
    {
        if self.row_cursor == 0 {
            self.collapse_persist_keep_expanded();
            self.focus = Focus::Choice;
        } else {
            self.row_cursor = self.row_cursor - 1;
            self.clamp_col(spec);
        }
    }

    fn down_in_subfield(&mut self, spec: &LanguageSpec, nrows: usize)
        requires
            old(self).expanded is Some,
            old(self).row_cursor < nrows,
            spec@ == old(self).open_spec(),
            nrows == old(self).rows().len(),
        ensures
            old(self).after_down(*final(self)),
    {
        if self.row_cursor + 1 < nrows {
            self.row_cursor = self.row_cursor + 1;
            self.clamp_col(spec);
        }
    }

    fn handle_subfield_input(&mut self, key: Key) -> (r: StepResult)
        requires
            old(self).wf(),
            old(self).focus is SubField,
            old(self).expanded is Some,
            old(self).custom_deps_input.text().len() < usize::MAX,
        ensures
            old(self).subfield_step(*final(self), key, r),
    {
        let lang = match self.expanded {
            Some(l) => l,
            None => {
                return StepResult::Continue;
            },
        };
        let spec = spec_for(lang);
        let rows = nav_rows(&spec);
        proof {
            lemma_categories_nonempty(lang);
            lemma_nav_rows_valid(spec@);
        }
        let row = rows[self.row_cursor];
        match key {
            Key::Esc => {
                self.focus = Focus::Choice;
                return StepResult::Continue;
            },
            Key::Up => {
                self.up_in_subfield(&spec);
                return StepResult::Continue;
            },
            Key::Down => {
                self.down_in_subfield(&spec, rows.len());
                return StepResult::Continue;
            },
            Key::Tab => {
                self.advance_flattened(&rows, &spec, false);
                return StepResult::Continue;
            },
            Key::BackTab => {
                self.advance_flattened(&rows, &spec, true);
                return StepResult::Continue;
            },
            _ => {},
        }
        if row == NavRow::Confirm {
            self.confirm_row_key(key, &spec, rows.len())
        } else if row == NavRow::CustomDepsInput {
            self.text_row_key(key, lang)
        } else {
            self.checkbox_row_key(key, &spec, row, rows.len())
        }
    }

    fn confirm_row_key(&mut self, key: Key, spec: &LanguageSpec, nrows: usize) -> (r: StepResult)
        requires
            old(self).wf(),
            old(self).focus is SubField,
            old(self).expanded is Some,
            spec@ == old(self).open_spec(),
            nrows == old(self).rows().len(),
            old(self).rows()[old(self).row_cursor as int] == NavRow::Confirm,
            !(key is Esc || key is Up || key is Down || key is Tab || key is BackTab),
        ensures
            old(self).subfield_step(*final(self), key, r),
    {
        match key {
            Key::Char('q') => {
                return StepResult::Quit;
            },
            Key::Char(' ') | Key::Enter => {
                self.collapse_persist();
            },
            Key::Char('k') => {
                self.up_in_subfield(spec);
            },
            Key::Char('j') => {
                self.down_in_subfield(spec, nrows);
            },
            _ => {},
        }
        StepResult::Continue
    }

    fn text_row_key(&mut self, key: Key, lang: Language) -> (r: StepResult)
        requires
            old(self).wf(),
            old(self).focus is SubField,
            old(self).expanded == Some(lang),
            old(self).rows()[old(self).row_cursor as int] == NavRow::CustomDepsInput,
            old(self).custom_deps_input.text().len() < usize::MAX,
            !(key is Esc || key is Up || key is Down || key is Tab || key is BackTab),
        ensures
            old(self).subfield_step(*final(self), key, r),
    {
        if key == Key::Enter {
            self.collapse_persist();
            return StepResult::Continue;
        }
        self.custom_deps_input.handle_input(key);
        let value = self.custom_deps_input.value();
        self.set_custom_deps(lang, value);
        StepResult::Continue
    }

    fn checkbox_row_key(&mut self, key: Key, spec: &LanguageSpec, row: NavRow, nrows: usize) -> (r:
        StepResult)
        requires
            old(self).wf(),
            old(self).focus is SubField,
            old(self).expanded is Some,
            spec@ == old(self).open_spec(),
            nrows == old(self).rows().len(),
            row == old(self).rows()[old(self).row_cursor as int],
            row_valid(row, spec@),
            row != NavRow::Confirm,
            row != NavRow::CustomDepsInput,
            !(key is Esc || key is Up || key is Down || key is Tab || key is BackTab),
        ensures
            old(self).subfield_step(*final(self), key, r),
    {
        let col_count = row.col_count(spec);
        match key {
            Key::Char('q') => {
                return StepResult::Quit;
            },
            Key::Char('k') => {
                self.up_in_subfield(spec);
            },
            Key::Char('j') => {
                self.down_in_subfield(spec, nrows);
            },
            Key::Left | Key::Char('h') => {
                if self.col_cursor > 0 {
                    self.col_cursor = self.col_cursor - 1;
                }
            },
            Key::Right | Key::Char('l') => {
                if self.col_cursor + 1 < col_count {
                    self.col_cursor = self.col_cursor + 1;
                }
            },
            Key::Char(' ') | Key::Enter => {
                self.toggle_focused_checkbox();
            },
            _ => {},
        }
        StepResult::Continue
    }

    /// Handles one key: on the choice list see
    /// [`LanguagesHandler::choice_step`], inside a sub-panel see
    /// [`LanguagesHandler::subfield_step`]. The handler's invariant is kept.
    pub fn handle_input(&mut self, key: Key, config: &mut ProjectConfig) -> (r: StepResult)
        requires
            old(self).wf(),
            old(self).custom_deps_input.text().len() < usize::MAX,
        ensures
            final(self).wf(),
            old(self).focus == Focus::Choice ==> old(self).choice_step(
                *final(self),
                *old(config),
                *final(config),
                key,
                r,
            ),
            old(self).focus is SubField ==> *final(config) == *old(config) && if old(
                self,
            ).expanded is Some {
                old(self).subfield_step(*final(self), key, r)
            } else {
                r == StepResult::Continue && *final(self) == *old(self)
            },
            old(self).focus == Focus::Browsing ==> r == StepResult::Continue && *final(self) == *old(
                self,
            ) && *final(config) == *old(config),
    {
        let r = match self.focus {
            Focus::Choice => self.handle_choice_input(key, config),
            Focus::SubField(_) => {
                if self.expanded.is_some() {
                    self.handle_subfield_input(key)
                } else {
                    StepResult::Continue
                }
            },
            Focus::Browsing => StepResult::Continue,
        };
        proof {
            self.lemma_step_keeps_wf(*old(self), *old(config), *config, key, r);
        }
        r
    }

    proof fn lemma_step_keeps_wf(
        self,
        o: LanguagesHandler,
        oc: ProjectConfig,
        nc: ProjectConfig,
        key: Key,
        r: StepResult,
    )
        requires
            o.wf(),
            o.focus == Focus::Choice ==> o.choice_step(self, oc, nc, key, r),
            (o.focus is SubField && o.expanded is Some) ==> o.subfield_step(self, key, r),
            (o.focus is SubField && o.expanded is None) ==> self == o,
            o.focus == Focus::Browsing ==> self == o,
        ensures
            self.wf(),
    {
        if o.focus == Focus::Choice {
            self.lemma_choice_keeps_wf(o, oc, nc, key, r);
        } else if o.focus is SubField && o.expanded is Some {
            self.lemma_subfield_keeps_wf(o, key, r);
        }
    }

    proof fn lemma_choice_keeps_wf(
        self,
        o: LanguagesHandler,
        oc: ProjectConfig,
        nc: ProjectConfig,
        key: Key,
        r: StepResult,
    )
        requires
            o.wf(),
            o.focus == Focus::Choice,
            o.choice_step(self, oc, nc, key, r),
        ensures
            self.wf(),
    {
        if let Some(l) = self.expanded {
            lemma_categories_nonempty(l);
            lemma_nav_rows_valid(spec_language_spec(l));
            if self.focus is SubField {
                assert(self.rows()[0].spec_col_count(spec_language_spec(l)) >= 1);
            }
        }
    }

    proof fn lemma_subfield_keeps_wf(self, o: LanguagesHandler, key: Key, r: StepResult)
        requires
            o.wf(),
            o.focus is SubField,
            o.expanded is Some,
            o.subfield_step(self, key, r),
        ensures
            self.wf(),
    {
        let l = o.expanded->0;
        let spec = spec_language_spec(l);
        lemma_categories_nonempty(l);
        lemma_nav_rows_valid(spec);
        let rows = o.rows();
        if key is Tab || key is BackTab {
            lemma_advance_stays_in_grid(rows, spec, o.row_cursor, o.col_cursor, key is BackTab);
        } else if o.row_cursor > 0 {
            assert(rows[o.row_cursor - 1].spec_col_count(spec) >= 1);
        }
        if o.row_cursor + 1 < rows.len() {
            assert(rows[o.row_cursor + 1].spec_col_count(spec) >= 1);
        }
    }
}

/// A step through the flattened cells of valid rows lands on a cell.
proof fn lemma_advance_stays_in_grid(
    rows: Seq<NavRow>,
    spec: LanguageSpecView,
    row: usize,
    col: usize,
    backward: bool,
)
    requires
        rows.len() <= usize::MAX,
        forall|k: int|
            0 <= k < rows.len() ==> row_valid(#[trigger] rows[k], spec) && 1 <= rows[k].spec_col_count(
                spec,
            ) <= usize::MAX,
    ensures
        match spec_advance(row_counts(rows, spec), row, col, backward) {
            Some((r, c)) => r < rows.len() && c < rows[r as int].spec_col_count(spec),
            None => true,
        },
{
    let counts = row_counts(rows, spec);
    lemma_flat_positions_bounds(counts);
    let f = flat_positions(counts);
    if f.len() > 0 {
        lemma_first_index_props(f, at_cell(row, col));
        let p0 = first_index_by(f, at_cell(row, col));
        let p = if p0 < 0 {
            0
        } else {
            p0
        };
        let next = if backward {
            if p == 0 {
                f.len() - 1
            } else {
                p - 1
            }
        } else {
            (p + 1) % (f.len() as int)
        };
        assert(0 <= next < f.len()) by (nonlinear_arith)
            requires
                0 <= p < f.len(),
                next == (if backward {
                    if p == 0 {
                        f.len() - 1
                    } else {
                        p - 1
                    }
                } else {
                    (p + 1) % (f.len() as int)
                }),
        ;
        let (r, c) = f[next];
        assert(counts[r as int] == rows[r as int].spec_col_count(spec) as usize);
    }
}

/// The planned action for one configured language: "Configure <name>",
/// followed by its tools in brackets when it has any.
pub open spec fn language_action(c: LanguageConfigView) -> Seq<char> {
    if c.1.len() == 0 {
        "Configure "@ + c.0.spec_label()
    } else {
        "Configure "@ + c.0.spec_label() + " ("@ + crate::text::joined(c.1, ", "@) + ")"@
    }
}

impl LanguagesHandler {
    /// What confirming the wizard will do for the configured languages: one
    /// [`language_action`] per language, in order.
    pub fn planned_actions(&self, config: &ProjectConfig) -> (r: Vec<String>)
        ensures
            r@.map_values(|s: String| s@) == views(config.language_configs@).map_values(
                |c: LanguageConfigView| language_action(c),
            ),
    {
        let ghost want = views(config.language_configs@).map_values(
            |c: LanguageConfigView| language_action(c),
        );
        let mut actions: Vec<String> = Vec::new();
        let mut i: usize = 0;
        while i < config.language_configs.len()
            invariant
                i <= config.language_configs.len(),
                want == views(config.language_configs@).map_values(
                    |c: LanguageConfigView| language_action(c),
                ),
                actions@.map_values(|s: String| s@) == want.take(i as int),
            decreases config.language_configs.len() - i,
        {
            let lc = &config.language_configs[i];
            let mut line = crate::text::concat("Configure ", lc.language.label());
            if lc.tools.len() > 0 {
                crate::text::append(&mut line, " (");
                let tools = crate::text::join_strs(&lc.tools, ", ");
                crate::text::append(&mut line, tools.as_str());
                crate::text::append(&mut line, ")");
            }
            assert(lc@.1 == lc.tools@.map_values(|p: &'static str| p@));
            assert(line@ == want[i as int]);
            let ghost prev = actions@;
            actions.push(line);
            assert(actions@.map_values(|s: String| s@) =~= prev.map_values(|s: String| s@).push(line@));
            i = i + 1;
            assert(actions@.map_values(|s: String| s@) =~= want.take(i as int));
        }
        assert(want.take(i as int) =~= want);
        actions
    }

    /// Nothing is written for the languages yet: always `Ok`.
    pub fn execute(&self, config: &ProjectConfig) -> (r: Result<(), std::io::Error>)
        ensures
            r is Ok,
    {
        Ok(())
    }
}

/// The configured languages are pairwise distinct.
pub open spec fn distinct_languages(configs: Seq<LanguageConfig>) -> bool {
    forall|i: int, j: int|
        0 <= i < j < configs.len() ==> (#[trigger] configs[i]).language != (#[trigger] configs[j]).language
}

/// Restoring the step from a configuration whose languages are distinct and
/// then pressing Enter on "Next" commits exactly the configured languages
/// again, in the same order, and advances.
pub proof fn lemma_restore_then_next(
    h: LanguagesHandler,
    config: ProjectConfig,
    n: LanguagesHandler,
    m: LanguagesHandler,
    nc: ProjectConfig,
    r: StepResult,
)
    requires
        distinct_languages(config.language_configs@),
        h.restored(n, config),
        n.choice_step(m, config, nc, Key::Enter, r),
    ensures
        r == StepResult::Done,
        views(nc.language_configs@) == views(config.language_configs@),
{
    let s = views(config.language_configs@);
    let sel = n.selected@;
    assert(n.synced() == s);
    assert forall|i: int| 0 <= i < sel.len() implies scratch_pos(s, #[trigger] sel[i]) == i by {
        assert(sel[i] == config.language_configs@[i].language);
        assert forall|j: int| 0 <= j < i implies !for_language(sel[i])(#[trigger] s[j]) by {
            assert(s[j].0 == config.language_configs@[j].language);
        }
        lemma_first_index_found(s, for_language(sel[i]), i);
    }
    assert(committed(sel, s) =~= s);
}

/// Unticking a ticked language with Space and ticking it again with Enter
/// keeps what was chosen for it: the language is ticked again, its scratch
/// entry is untouched, and its sub-panel opens on that entry.
pub proof fn lemma_untick_retick_keeps_choices(
    h: LanguagesHandler,
    c: ProjectConfig,
    h1: LanguagesHandler,
    c1: ProjectConfig,
    r1: StepResult,
    h2: LanguagesHandler,
    c2: ProjectConfig,
    r2: StepResult,
)
    requires
        h.wf(),
        h.focus == Focus::Choice,
        h.cursor > 0,
        spec_is_supported(lang_at(h.cursor as int)->0),
        h.selected@.contains(lang_at(h.cursor as int)->0),
        h.choice_step(h1, c, c1, Key::Char(' '), r1),
        h1.choice_step(h2, c1, c2, Key::Enter, r2),
    ensures
        h2.selected@.contains(lang_at(h.cursor as int)->0),
        h2.scratch_v() == ensured(h.scratch_v(), lang_at(h.cursor as int)->0),
        scratch_pos(h.scratch_v(), lang_at(h.cursor as int)->0) >= 0 ==> h2.scratch_v() == h.scratch_v(),
        h2.expanded == Some(lang_at(h.cursor as int)->0),
        h2.custom_deps_input.text() == ensured(h.scratch_v(), lang_at(h.cursor as int)->0)[ensured_pos(
            h.scratch_v(),
            lang_at(h.cursor as int)->0,
        )].3,
        c2 == c,
{
    let l = lang_at(h.cursor as int)->0;
    if h1.selected@.contains(l) {
    } else {
        assert(h1.selected@.push(l)[h1.selected@.len() as int] == l);
    }
}

impl LanguagesHandler {
    /// Tab then BackTab inside an open sub-panel brings the 2-D cursor back
    /// to the cell it started on, changing nothing else.
    pub proof fn lemma_tab_then_backtab(self, n: LanguagesHandler, m: LanguagesHandler, r1: StepResult, r2: StepResult)
        requires
            self.wf(),
            self.focus is SubField,
            self.expanded is Some,
            self.subfield_step(n, Key::Tab, r1),
            n.subfield_step(m, Key::BackTab, r2),
        ensures
            m == self,
    {
        self.lemma_tab_is_advance(n, r1, false);
        n.lemma_tab_is_advance(m, r2, true);
        let l = self.expanded->0;
        let spec = spec_language_spec(l);
        lemma_categories_nonempty(l);
        lemma_nav_rows_valid(spec);
        let rows = self.rows();
        let counts = row_counts(rows, spec);
        assert(counts[self.row_cursor as int] == rows[self.row_cursor as int].spec_col_count(spec) as usize);
        crate::seqs::lemma_advance_then_back(counts, self.row_cursor, self.col_cursor);
    }

    /// A key inside an open sub-panel keeps the handler's invariant (the
    /// 2-D cursor on a cell of the panel) and leaves the ticked languages as
    /// they are; [`LanguagesHandler::handle_input`] also leaves the
    /// configuration alone there.
    pub proof fn lemma_subfield_keeps_selection(self, n: LanguagesHandler, key: Key, r: StepResult)
        requires
            self.wf(),
            self.focus is SubField,
            self.expanded is Some,
            self.subfield_step(n, key, r),
        ensures
            n.wf(),
            n.selected == self.selected,
    {
        n.lemma_subfield_keeps_wf(self, key, r);
    }

    /// BackTab then Tab inside an open sub-panel brings the 2-D cursor back
    /// to the cell it started on, changing nothing else.
    pub proof fn lemma_backtab_then_tab(self, n: LanguagesHandler, m: LanguagesHandler, r1: StepResult, r2: StepResult)
        requires
            self.wf(),
            self.focus is SubField,
            self.expanded is Some,
            self.subfield_step(n, Key::BackTab, r1),
            n.subfield_step(m, Key::Tab, r2),
        ensures
            m == self,
    {
        self.lemma_tab_is_advance(n, r1, true);
        n.lemma_tab_is_advance(m, r2, false);
        let l = self.expanded->0;
        let spec = spec_language_spec(l);
        lemma_categories_nonempty(l);
        lemma_nav_rows_valid(spec);
        let rows = self.rows();
        let counts = row_counts(rows, spec);
        assert(counts[self.row_cursor as int] == rows[self.row_cursor as int].spec_col_count(spec) as usize);
        crate::seqs::lemma_back_then_advance(counts, self.row_cursor, self.col_cursor);
    }

    proof fn lemma_tab_is_advance(self, n: LanguagesHandler, r: StepResult, backward: bool)
        requires
            self.subfield_step(n, if backward { Key::BackTab } else { Key::Tab }, r),
        ensures
            self.after_advance(n, backward),
    {
    }
}

} // verus!
