//! The Workflows step: one radio list for the CI provider and one for the
//! pre-commit framework, walked by a single cursor.

use vstd::prelude::*;

use crate::config::{
    views, CiProvider, LanguageConfigView, PreCommitFramework, ProjectConfig, WorkflowConfig,
};
use crate::registry::{find_tool, spec_all_tools, tool_by_id};
use crate::steps::languages::contains_id;
use crate::steps::{Key, StepResult};
use crate::text::{concat, join_strs, joined};

verus! {

/// The CI providers, in display order.
pub open spec fn spec_ci_choices() -> Seq<CiProvider> {
    seq![CiProvider::NoCi, CiProvider::GitHubActions, CiProvider::GitLab, CiProvider::Woodpecker]
}

/// The pre-commit frameworks, in display order.
pub open spec fn spec_pre_commit_choices() -> Seq<PreCommitFramework> {
    seq![PreCommitFramework::PreCommit, PreCommitFramework::Lefthook, PreCommitFramework::NoFramework]
}

/// Number of CI providers offered.
pub const CI_COUNT: usize = 4;

/// Number of radio rows: the CI providers, then the pre-commit frameworks.
pub const TOTAL_OPTIONS: usize = 7;

/// Position of a CI provider in its list.
pub open spec fn ci_pos(c: CiProvider) -> int {
    match c {
        CiProvider::NoCi => 0,
        CiProvider::GitHubActions => 1,
        CiProvider::GitLab => 2,
        CiProvider::Woodpecker => 3,
    }
}

/// Position of a pre-commit framework in its list.
pub open spec fn pre_commit_pos(p: PreCommitFramework) -> int {
    match p {
        PreCommitFramework::PreCommit => 0,
        PreCommitFramework::Lefthook => 1,
        PreCommitFramework::NoFramework => 2,
    }
}

/// The `i`-th CI provider.
pub fn ci_choice(i: usize) -> (r: CiProvider)
    requires
        i < 4,
    ensures
        r == spec_ci_choices()[i as int],
{
    match i {
        0 => CiProvider::NoCi,
        1 => CiProvider::GitHubActions,
        2 => CiProvider::GitLab,
        _ => CiProvider::Woodpecker,
    }
}

/// The `i`-th pre-commit framework.
pub fn pre_commit_choice(i: usize) -> (r: PreCommitFramework)
    requires
        i < 3,
    ensures
        r == spec_pre_commit_choices()[i as int],
{
    match i {
        0 => PreCommitFramework::PreCommit,
        1 => PreCommitFramework::Lefthook,
        _ => PreCommitFramework::NoFramework,
    }
}

/// The tool ids of a list of language configurations, language by language.
pub open spec fn all_tool_ids(configs: Seq<LanguageConfigView>) -> Seq<Seq<char>>
    decreases configs.len(),
{
    if configs.len() == 0 {
        Seq::empty()
    } else {
        all_tool_ids(configs.drop_last()) + configs.last().1
    }
}

/// Where the chosen tools run: the labels of the known tools that run as
/// pre-commit hooks by default, and of those that run in CI by default, each
/// in first-seen order without repeats; unknown ids are skipped.
pub open spec fn derived(ids: Seq<Seq<char>>) -> (Seq<Seq<char>>, Seq<Seq<char>>)
    decreases ids.len(),
{
    if ids.len() == 0 {
        (Seq::empty(), Seq::empty())
    } else {
        let (p, c) = derived(ids.drop_last());
        match find_tool(spec_all_tools(), ids.last()) {
            Some(t) => (
                if t.2 && !p.contains(t.1) {
                    p.push(t.1)
                } else {
                    p
                },
                if t.3 && !c.contains(t.1) {
                    c.push(t.1)
                } else {
                    c
                },
            ),
            None => (p, c),
        }
    }
}

/// The planned workflow actions: a CI line and a hooks line for the chosen
/// provider and framework (none for "None", or when unset), then the tools
/// the hooks run and the tools CI runs, when there are any.
pub open spec fn workflow_actions(wf: WorkflowConfig, configs: Seq<LanguageConfigView>) -> Seq<
    Seq<char>,
> {
    let ci = match wf.ci {
        Some(c) => c,
        None => CiProvider::NoCi,
    };
    let pre = match wf.pre_commit {
        Some(p) => p,
        None => PreCommitFramework::NoFramework,
    };
    let (pre_tools, ci_tools) = derived(all_tool_ids(configs));
    (if ci != CiProvider::NoCi {
        seq!["Set up "@ + ci.spec_label() + " workflow"@]
    } else {
        Seq::empty()
    }) + (if pre != PreCommitFramework::NoFramework {
        seq!["Set up "@ + pre.spec_label() + " hooks"@]
    } else {
        Seq::empty()
    }) + (if pre != PreCommitFramework::NoFramework && pre_tools.len() > 0 {
        seq!["Pre-commit runs: "@ + joined(pre_tools, ", "@)]
    } else {
        Seq::empty()
    }) + (if ci != CiProvider::NoCi && ci_tools.len() > 0 {
        seq!["CI runs: "@ + joined(ci_tools, ", "@)]
    } else {
        Seq::empty()
    })
}

/// Input state of the Workflows step.
#[derive(Debug)]
pub struct WorkflowsHandler {
    /// Radio row: `0..4` the CI providers, `4..7` the frameworks.
    pub cursor: usize,
    /// The chosen CI provider's position.
    pub ci_idx: usize,
    /// The chosen framework's position.
    pub pre_commit_idx: usize,
}

impl WorkflowsHandler {
    /// The state the handler keeps: the cursor is on a row and both choices
    /// are positions in their lists.
    pub open spec fn wf(&self) -> bool {
        self.cursor < 7 && self.ci_idx < 4 && self.pre_commit_idx < 3
    }

    /// The chosen radio at the cursor: a CI row sets the provider, a
    /// framework row the framework.
    pub open spec fn selected_at_cursor(self) -> WorkflowsHandler {
        if self.cursor < 4 {
            WorkflowsHandler { ci_idx: self.cursor, ..self }
        } else {
            WorkflowsHandler { pre_commit_idx: (self.cursor - 4) as usize, ..self }
        }
    }

    /// The state [`WorkflowsHandler::restore_from_config`] leaves.
    pub open spec fn restored(self, n: WorkflowsHandler, config: ProjectConfig) -> bool {
        &&& n.ci_idx == match config.workflows.ci {
            Some(c) => ci_pos(c),
            None => self.ci_idx as int,
        }
        &&& n.pre_commit_idx == match config.workflows.pre_commit {
            Some(p) => pre_commit_pos(p),
            None => self.pre_commit_idx as int,
        }
        &&& n.cursor == 0
    }

    /// Restores the step from the configuration when navigating back: a
    /// configured provider or framework becomes the chosen one (an unset one
    /// leaves the choice as it was), and the cursor goes to the top.
    pub fn restore_from_config(&mut self, config: &ProjectConfig)
        ensures
            old(self).restored(*final(self), *config),
    {
        if let Some(ci) = config.workflows.ci {
            self.ci_idx = match ci {
                CiProvider::NoCi => 0,
                CiProvider::GitHubActions => 1,
                CiProvider::GitLab => 2,
                CiProvider::Woodpecker => 3,
            };
        }
        if let Some(pc) = config.workflows.pre_commit {
            self.pre_commit_idx = match pc {
                PreCommitFramework::PreCommit => 0,
                PreCommitFramework::Lefthook => 1,
                PreCommitFramework::NoFramework => 2,
            };
        }
        self.cursor = 0;
    }

    /// Writes both choices into the configuration.
    pub fn commit_to_config(&self, config: &mut ProjectConfig)
        requires
            self.wf(),
        ensures
            final(config).workflows.ci == Some(spec_ci_choices()[self.ci_idx as int]),
            final(config).workflows.pre_commit == Some(
                spec_pre_commit_choices()[self.pre_commit_idx as int],
            ),
            *final(config) == (ProjectConfig { workflows: final(config).workflows, ..*old(config) }),
    {
        config.workflows = WorkflowConfig {
            ci: Some(ci_choice(self.ci_idx)),
            pre_commit: Some(pre_commit_choice(self.pre_commit_idx)),
        };
    }

    /// Chooses the radio under the cursor (see
    /// [`WorkflowsHandler::selected_at_cursor`]).
    pub fn select_at_cursor(&mut self)
        requires
            old(self).wf(),
        ensures
            *final(self) == old(self).selected_at_cursor(),
            final(self).wf(),
    {
        if self.cursor < CI_COUNT {
            self.ci_idx = self.cursor;
        } else {
            self.pre_commit_idx = self.cursor - CI_COUNT;
        }
    }

    /// The chosen CI provider.
    pub fn ci_selection(&self) -> (r: CiProvider)
        requires
            self.wf(),
        ensures
            r == spec_ci_choices()[self.ci_idx as int],
    {
        ci_choice(self.ci_idx)
    }

    /// The chosen pre-commit framework.
    pub fn pre_commit_selection(&self) -> (r: PreCommitFramework)
        requires
            self.wf(),
        ensures
            r == spec_pre_commit_choices()[self.pre_commit_idx as int],
    {
        pre_commit_choice(self.pre_commit_idx)
    }

    /// Where the configured languages' tools run (see [`derived`]): the
    /// pre-commit labels and the CI labels.
    pub fn derived_lines(config: &ProjectConfig) -> (r: (Vec<&'static str>, Vec<&'static str>))
        ensures
            (r.0@.map_values(|s: &'static str| s@), r.1@.map_values(|s: &'static str| s@)) == derived(
                all_tool_ids(views(config.language_configs@)),
            ),
    {
        let ghost cs = views(config.language_configs@);
        let mut pre_commit: Vec<&'static str> = Vec::new();
        let mut ci: Vec<&'static str> = Vec::new();
        let mut i: usize = 0;
        while i < config.language_configs.len()
            invariant
                i <= config.language_configs.len(),
                cs == views(config.language_configs@),
                (pre_commit@.map_values(|s: &'static str| s@), ci@.map_values(|s: &'static str| s@))
                    == derived(all_tool_ids(cs.take(i as int))),
            decreases config.language_configs.len() - i,
        {
            let lc = &config.language_configs[i];
            let ghost base = all_tool_ids(cs.take(i as int));
            let ghost ids = cs[i as int].1;
            assert(ids == lc.tools@.map_values(|s: &'static str| s@));
            let mut j: usize = 0;
            assert(base + ids.take(0) =~= base);
            while j < lc.tools.len()
                invariant
                    j <= lc.tools.len(),
                    ids == lc.tools@.map_values(|s: &'static str| s@),
                    (pre_commit@.map_values(|s: &'static str| s@), ci@.map_values(
                        |s: &'static str| s@,
                    )) == derived(base + ids.take(j as int)),
                decreases lc.tools.len() - j,
            {
                let tool_id = lc.tools[j];
                let ghost before = base + ids.take(j as int);
                assert((base + ids.take(j + 1)).drop_last() =~= before);
                assert((base + ids.take(j + 1)).last() == tool_id@);
                match tool_by_id(tool_id) {
                    Some(tool) => {
                        if tool.default_pre_commit && !contains_id(&pre_commit, tool.label) {
                            let ghost prev = pre_commit@;
                            pre_commit.push(tool.label);
                            assert(pre_commit@.map_values(|s: &'static str| s@) =~= prev.map_values(
                                |s: &'static str| s@,
                            ).push(tool.label@));
                        }
                        if tool.default_ci && !contains_id(&ci, tool.label) {
                            let ghost prev = ci@;
                            ci.push(tool.label);
                            assert(ci@.map_values(|s: &'static str| s@) =~= prev.map_values(
                                |s: &'static str| s@,
                            ).push(tool.label@));
                        }
                    },
                    None => {},
                }
                j = j + 1;
            }
            assert(ids.take(j as int) =~= ids);
            assert(cs.take(i + 1).drop_last() =~= cs.take(i as int));
            i = i + 1;
        }
        assert(cs.take(i as int) =~= cs);
        (pre_commit, ci)
    }

    /// Keys: q quits; Up/k and Down/j move the cursor; Left/h goes back;
    /// Space chooses the radio under the cursor; Enter/Right/l chooses it,
    /// commits both choices and advances.
    pub open spec fn step(
        self,
        n: WorkflowsHandler,
        oc: ProjectConfig,
        nc: ProjectConfig,
        key: Key,
        r: StepResult,
    ) -> bool {
        let unchanged_config = nc == oc;
        if key == Key::Char('q') {
            r == StepResult::Quit && n == self && unchanged_config
        } else if key == Key::Up || key == Key::Char('k') {
            r == StepResult::Continue && unchanged_config && n == (WorkflowsHandler {
                cursor: if self.cursor > 0 {
                    (self.cursor - 1) as usize
                } else {
                    0
                },
                ..self
            })
        } else if key == Key::Down || key == Key::Char('j') {
            r == StepResult::Continue && unchanged_config && n == (WorkflowsHandler {
                cursor: if self.cursor + 1 < 7 {
                    (self.cursor + 1) as usize
                } else {
                    self.cursor
                },
                ..self
            })
        } else if key == Key::Left || key == Key::Char('h') {
            r == StepResult::Back && n == self && unchanged_config
        } else if key == Key::Char(' ') {
            r == StepResult::Continue && unchanged_config && n == self.selected_at_cursor()
        } else if key == Key::Enter || key == Key::Right || key == Key::Char('l') {
            &&& r == StepResult::Done
            &&& n == self.selected_at_cursor()
            &&& nc.workflows.ci == Some(spec_ci_choices()[n.ci_idx as int])
            &&& nc.workflows.pre_commit == Some(spec_pre_commit_choices()[n.pre_commit_idx as int])
            &&& nc == (ProjectConfig { workflows: nc.workflows, ..oc })
        } else {
            r == StepResult::Continue && n == self && unchanged_config
        }
    }

    /// Handles one key (see [`WorkflowsHandler::step`]). The handler's
    /// invariant is kept.
    pub fn handle_input(&mut self, key: Key, config: &mut ProjectConfig) -> (r: StepResult)
        requires
            old(self).wf(),
        ensures
            final(self).wf(),
            old(self).step(*final(self), *old(config), *final(config), key, r),
    {
        if key == Key::Char('q') {
            StepResult::Quit
        } else if key == Key::Up || key == Key::Char('k') {
            if self.cursor > 0 {
                self.cursor = self.cursor - 1;
            }
            StepResult::Continue
        } else if key == Key::Down || key == Key::Char('j') {
            if self.cursor + 1 < TOTAL_OPTIONS {
                self.cursor = self.cursor + 1;
            }
            StepResult::Continue
        } else if key == Key::Left || key == Key::Char('h') {
            StepResult::Back
        } else if key == Key::Char(' ') {
            self.select_at_cursor();
            StepResult::Continue
        } else if key == Key::Enter || key == Key::Right || key == Key::Char('l') {
            self.select_at_cursor();
            self.commit_to_config(config);
            StepResult::Done
        } else {
            StepResult::Continue
        }
    }

    /// What confirming the wizard will do for workflows (see
    /// [`workflow_actions`]).
    pub fn planned_actions(&self, config: &ProjectConfig) -> (r: Vec<String>)
        ensures
            r@.map_values(|s: String| s@) == workflow_actions(
                config.workflows,
                views(config.language_configs@),
            ),
    {
        let ci = match config.workflows.ci {
            Some(c) => c,
            None => CiProvider::NoCi,
        };
        let pre_commit = match config.workflows.pre_commit {
            Some(p) => p,
            None => PreCommitFramework::NoFramework,
        };
        let mut actions: Vec<String> = Vec::new();
        if ci != CiProvider::NoCi {
            let mut line = concat("Set up ", ci.label());
            crate::text::append(&mut line, " workflow");
            actions.push(line);
        }
        if pre_commit != PreCommitFramework::NoFramework {
            let mut line = concat("Set up ", pre_commit.label());
            crate::text::append(&mut line, " hooks");
            actions.push(line);
        }
        let (pre_tools, ci_tools) = Self::derived_lines(config);
        if pre_commit != PreCommitFramework::NoFramework && pre_tools.len() > 0 {
            let tools = join_strs(&pre_tools, ", ");
            actions.push(concat("Pre-commit runs: ", tools.as_str()));
        }
        if ci != CiProvider::NoCi && ci_tools.len() > 0 {
            let tools = join_strs(&ci_tools, ", ");
            actions.push(concat("CI runs: ", tools.as_str()));
        }
        assert(actions@.map_values(|s: String| s@) =~= workflow_actions(
            config.workflows,
            views(config.language_configs@),
        ));
        actions
    }

    /// Nothing is written for workflows yet: always `Ok`.
    pub fn execute(&self, config: &ProjectConfig) -> (r: Result<(), std::io::Error>)
        ensures
            r is Ok,
    {
        Ok(())
    }
}

impl WorkflowsHandler {
    /// The state a fresh one starts in (see `Default`).
    pub open spec fn is_fresh(self) -> bool {
        &&& self.cursor == 0
        &&& self.ci_idx == 1
        &&& self.pre_commit_idx == 0
    }
}

impl Default for WorkflowsHandler {
    fn default() -> (r: WorkflowsHandler)
        ensures
            r.is_fresh(),
    {
        WorkflowsHandler { cursor: 0, ci_idx: 1, pre_commit_idx: 0 }
    }
}

/// Restoring the step and pressing Enter commits the configured pre-commit
/// framework again (when one is configured) and the CI provider on the top
/// row, where restoring puts the cursor: Enter adopts the option under the
/// cursor. So a configuration without CI ("None", the top row) and with a
/// framework is committed unchanged.
pub proof fn lemma_restore_then_enter(
    h: WorkflowsHandler,
    config: ProjectConfig,
    n: WorkflowsHandler,
    m: WorkflowsHandler,
    nc: ProjectConfig,
    r: StepResult,
)
    requires
        h.restored(n, config),
        n.step(m, config, nc, Key::Enter, r),
    ensures
        r == StepResult::Done,
        nc.workflows.ci == Some(CiProvider::NoCi),
        config.workflows.pre_commit is Some ==> nc.workflows.pre_commit == config.workflows.pre_commit,
        (config.workflows.ci == Some(CiProvider::NoCi) && config.workflows.pre_commit is Some)
            ==> nc.workflows == config.workflows,
{
}

/// `name` is the catalog label of one of the chosen tools `ids` whose
/// catalog entry runs it in CI by default (`in_ci`), or as a pre-commit
/// hook by default (otherwise).
pub open spec fn chosen_tool_label(ids: Seq<Seq<char>>, name: Seq<char>, in_ci: bool) -> bool {
    exists|j: int|
        0 <= j < ids.len() && #[trigger] find_tool(spec_all_tools(), ids[j]) is Some && (if in_ci {
            (find_tool(spec_all_tools(), ids[j])->0).3
        } else {
            (find_tool(spec_all_tools(), ids[j])->0).2
        }) && name == (find_tool(spec_all_tools(), ids[j])->0).1
}

/// Each list of derived tools names only chosen tools that the catalog runs
/// there by default: every name in the CI list (second) is the label of a
/// chosen tool with a CI default, and every name in the pre-commit list
/// (first) the label of a chosen tool with a hook default.
pub proof fn lemma_derived_names_are_catalog_labels(ids: Seq<Seq<char>>)
    ensures
        forall|k: int|
            0 <= k < derived(ids).1.len() ==> chosen_tool_label(ids, #[trigger] derived(ids).1[k], true),
        forall|k: int|
            0 <= k < derived(ids).0.len() ==> chosen_tool_label(ids, #[trigger] derived(ids).0[k], false),
    decreases ids.len(),
{
    if ids.len() > 0 {
        let q = ids.drop_last();
        lemma_derived_names_are_catalog_labels(q);
        let (pp, pc) = derived(q);
        let (p, c) = derived(ids);
        let last = ids.last();
        let n = ids.len() - 1;
        assert(ids[n] == last);
        assert forall|k: int| 0 <= k < c.len() implies chosen_tool_label(ids, #[trigger] c[k], true) by {
            if k < pc.len() {
                assert(c[k] == pc[k]);
                assert(chosen_tool_label(q, pc[k], true));
                let j = choose|j: int|
                    0 <= j < q.len() && #[trigger] find_tool(spec_all_tools(), q[j]) is Some && (find_tool(
                        spec_all_tools(),
                        q[j],
                    )->0).3 && pc[k] == (find_tool(spec_all_tools(), q[j])->0).1;
                assert(ids[j] == q[j]);
                assert(find_tool(spec_all_tools(), ids[j]) is Some);
            } else {
                assert(find_tool(spec_all_tools(), ids[n]) is Some);
                assert(c[k] == (find_tool(spec_all_tools(), ids[n])->0).1);
            }
        }
        assert forall|k: int| 0 <= k < p.len() implies chosen_tool_label(ids, #[trigger] p[k], false) by {
            if k < pp.len() {
                assert(p[k] == pp[k]);
                assert(chosen_tool_label(q, pp[k], false));
                let j = choose|j: int|
                    0 <= j < q.len() && #[trigger] find_tool(spec_all_tools(), q[j]) is Some && (find_tool(
                        spec_all_tools(),
                        q[j],
                    )->0).2 && pp[k] == (find_tool(spec_all_tools(), q[j])->0).1;
                assert(ids[j] == q[j]);
                assert(find_tool(spec_all_tools(), ids[j]) is Some);
            } else {
                assert(find_tool(spec_all_tools(), ids[n]) is Some);
                assert(p[k] == (find_tool(spec_all_tools(), ids[n])->0).1);
            }
        }
    }
}

/// Where the chosen tools run, in terms of the catalog: every chosen tool
/// that the catalog runs in CI by default is in the CI list (second), and
/// every one it runs as a hook by default is in the pre-commit list
/// (first); and each list names only such tools (see
/// [`lemma_derived_names_are_catalog_labels`]).
pub proof fn lemma_derived_follows_catalog(ids: Seq<Seq<char>>)
    ensures
        forall|j: int|
            0 <= j < ids.len() && (find_tool(spec_all_tools(), #[trigger] ids[j]) is Some) ==> {
                let t = find_tool(spec_all_tools(), ids[j])->0;
                &&& t.3 ==> derived(ids).1.contains(t.1)
                &&& t.2 ==> derived(ids).0.contains(t.1)
            },
    decreases ids.len(),
{
    if ids.len() > 0 {
        let q = ids.drop_last();
        lemma_derived_follows_catalog(q);
        let (pp, pc) = derived(q);
        let (p, c) = derived(ids);
        let last = ids.last();
        assert(ids[ids.len() - 1] == last);
        assert forall|j: int| 0 <= j < q.len() implies #[trigger] ids[j] == q[j] by {}
        // every earlier element stays, so a list only grows
        assert forall|x: Seq<char>| pc.contains(x) implies c.contains(x) by {
            let w = choose|w: int| 0 <= w < pc.len() && pc[w] == x;
            assert(c[w] == pc[w]);
        }
        assert forall|x: Seq<char>| pp.contains(x) implies p.contains(x) by {
            let w = choose|w: int| 0 <= w < pp.len() && pp[w] == x;
            assert(p[w] == pp[w]);
        }
        assert forall|j: int|
            0 <= j < ids.len() && (find_tool(spec_all_tools(), #[trigger] ids[j]) is Some) implies {
                let t = find_tool(spec_all_tools(), ids[j])->0;
                &&& t.3 ==> c.contains(t.1)
                &&& t.2 ==> p.contains(t.1)
            } by {
            let t = find_tool(spec_all_tools(), ids[j])->0;
            if j < q.len() {
                assert(find_tool(spec_all_tools(), q[j]) is Some);
                if t.3 {
                    assert(pc.contains(t.1));
                }
                if t.2 {
                    assert(pp.contains(t.1));
                }
            } else {
                if t.3 && !pc.contains(t.1) {
                    assert(c[pc.len() as int] == t.1);
                }
                if t.2 && !pp.contains(t.1) {
                    assert(p[pp.len() as int] == t.1);
                }
            }
        }
    }
}

/// With a CI provider chosen, the planned actions list the tools CI runs
/// (see [`lemma_derived_follows_catalog`]) in a "CI runs: " line, and with
/// a framework chosen, the tools the hooks run in a "Pre-commit runs: "
/// line, whenever there are any.
pub proof fn lemma_workflow_actions_list_tools(wf: WorkflowConfig, configs: Seq<LanguageConfigView>)
    ensures
        ({
            let (pre_tools, ci_tools) = derived(all_tool_ids(configs));
            &&& (wf.ci is Some && wf.ci != Some(CiProvider::NoCi) && ci_tools.len() > 0)
                ==> workflow_actions(wf, configs).contains("CI runs: "@ + joined(ci_tools, ", "@))
            &&& (wf.pre_commit is Some && wf.pre_commit != Some(PreCommitFramework::NoFramework)
                && pre_tools.len() > 0) ==> workflow_actions(wf, configs).contains(
                "Pre-commit runs: "@ + joined(pre_tools, ", "@),
            )
        }),
{
    let acts = workflow_actions(wf, configs);
    let (pre_tools, ci_tools) = derived(all_tool_ids(configs));
    if wf.ci is Some && wf.ci != Some(CiProvider::NoCi) && ci_tools.len() > 0 {
        assert(acts.last() == "CI runs: "@ + joined(ci_tools, ", "@));
        assert(acts[acts.len() - 1] == acts.last());
    }
    if wf.pre_commit is Some && wf.pre_commit != Some(PreCommitFramework::NoFramework)
        && pre_tools.len() > 0 {
        let line = "Pre-commit runs: "@ + joined(pre_tools, ", "@);
        let ci = wf.ci->0;
        let before = (if wf.ci is Some && ci != CiProvider::NoCi {
            seq!["Set up "@ + ci.spec_label() + " workflow"@]
        } else {
            Seq::<Seq<char>>::empty()
        }) + seq!["Set up "@ + wf.pre_commit->0.spec_label() + " hooks"@];
        assert(acts[before.len() as int] == line);
    }
}

} // verus!
