use cinderbox::config::{
    CiProvider, Language, LanguageConfig, PreCommitFramework, ProjectConfig, WorkflowConfig,
};
use cinderbox::steps::workflows::{WorkflowsHandler, CI_COUNT, TOTAL_OPTIONS};
use cinderbox::steps::{Key, StepResult};

#[test]
fn workflows_default_state() {
    let h = WorkflowsHandler::default();
    assert_eq!(h.cursor, 0);
    assert_eq!(h.ci_selection(), CiProvider::GitHubActions);
    assert_eq!(h.pre_commit_selection(), PreCommitFramework::PreCommit);
}

#[test]
fn down_walks_through_all_options_then_clamps() {
    let mut h = WorkflowsHandler::default();
    let mut c = ProjectConfig::default();
    for i in 1..TOTAL_OPTIONS {
        h.handle_input(Key::Down, &mut c);
        assert_eq!(h.cursor, i);
    }
    // Clamps at TOTAL_OPTIONS - 1
    h.handle_input(Key::Down, &mut c);
    assert_eq!(h.cursor, TOTAL_OPTIONS - 1);
}

#[test]
fn up_returns_to_top() {
    let mut h = WorkflowsHandler {
        cursor: TOTAL_OPTIONS - 1,
        ..Default::default()
    };
    let mut c = ProjectConfig::default();
    for _ in 0..(TOTAL_OPTIONS + 5) {
        h.handle_input(Key::Char('k'), &mut c);
    }
    assert_eq!(h.cursor, 0);
}

#[test]
fn space_selects_radio_at_cursor_in_ci_section() {
    let mut h = WorkflowsHandler::default();
    let mut c = ProjectConfig::default();
    // Cursor 0 = CI::None
    h.handle_input(Key::Char(' '), &mut c);
    assert_eq!(h.ci_selection(), CiProvider::NoCi);
    h.handle_input(Key::Down, &mut c); // cursor 1 = GitHub Actions
    h.handle_input(Key::Down, &mut c); // cursor 2 = GitLab
    h.handle_input(Key::Char(' '), &mut c);
    assert_eq!(h.ci_selection(), CiProvider::GitLab);
}

#[test]
fn space_selects_radio_at_cursor_in_pre_commit_section() {
    let mut h = WorkflowsHandler::default();
    let mut c = ProjectConfig::default();
    // Move cursor into pre-commit section (cursor 4 = first pre-commit option)
    for _ in 0..CI_COUNT {
        h.handle_input(Key::Down, &mut c);
    }
    assert_eq!(h.cursor, CI_COUNT);
    h.handle_input(Key::Down, &mut c); // cursor 5 = lefthook
    h.handle_input(Key::Char(' '), &mut c);
    assert_eq!(h.pre_commit_selection(), PreCommitFramework::Lefthook);
    // CI section selection unchanged
    assert_eq!(h.ci_selection(), CiProvider::GitHubActions);
}

#[test]
fn left_returns_back() {
    let mut h = WorkflowsHandler::default();
    let mut c = ProjectConfig::default();
    let result = h.handle_input(Key::Left, &mut c);
    assert!(matches!(result, StepResult::Back));
    let result = h.handle_input(Key::Char('h'), &mut c);
    assert!(matches!(result, StepResult::Back));
}

#[test]
fn enter_commits_and_advances() {
    let mut h = WorkflowsHandler::default();
    let mut c = ProjectConfig::default();
    let result = h.handle_input(Key::Enter, &mut c);
    assert!(matches!(result, StepResult::Done));
    assert_eq!(c.workflows.ci, Some(CiProvider::NoCi)); // cursor 0 = None
    assert_eq!(c.workflows.pre_commit, Some(PreCommitFramework::PreCommit));
}

#[test]
fn right_commits_and_advances() {
    let mut h = WorkflowsHandler::default();
    let mut c = ProjectConfig::default();
    // Move to GitHub Actions (cursor 1) then advance via Right
    h.handle_input(Key::Down, &mut c);
    let result = h.handle_input(Key::Right, &mut c);
    assert!(matches!(result, StepResult::Done));
    assert_eq!(c.workflows.ci, Some(CiProvider::GitHubActions));
}

#[test]
fn enter_adopts_cursor_position_as_selection() {
    // Even without explicit Space, pressing Enter at a cursor should set
    // the section's radio to that option before committing.
    let mut h = WorkflowsHandler::default();
    let mut c = ProjectConfig::default();
    // cursor 2 = GitLab in CI section
    h.handle_input(Key::Down, &mut c);
    h.handle_input(Key::Down, &mut c);
    h.handle_input(Key::Enter, &mut c);
    assert_eq!(c.workflows.ci, Some(CiProvider::GitLab));
}

#[test]
fn workflows_q_quits() {
    let mut h = WorkflowsHandler::default();
    let mut c = ProjectConfig::default();
    let result = h.handle_input(Key::Char('q'), &mut c);
    assert!(matches!(result, StepResult::Quit));
}

#[test]
fn workflows_restore_from_config_rehydrates() {
    let mut h = WorkflowsHandler::default();
    let c = ProjectConfig {
        workflows: WorkflowConfig {
            ci: Some(CiProvider::Woodpecker),
            pre_commit: Some(PreCommitFramework::Lefthook),
        },
        ..Default::default()
    };
    h.restore_from_config(&c);
    assert_eq!(h.ci_selection(), CiProvider::Woodpecker);
    assert_eq!(h.pre_commit_selection(), PreCommitFramework::Lefthook);
}

// --- Derived preview from language_configs ---

#[test]
fn derived_lines_reflect_language_tools() {
    let c = ProjectConfig {
        language_configs: vec![LanguageConfig {
            language: Language::Python,
            tools: vec!["ruff", "pytest"],
            common_deps: vec![],
            custom_deps: String::new(),
        }],
        ..Default::default()
    };
    let (pre, ci) = WorkflowsHandler::derived_lines(&c);
    assert!(pre.contains(&"Ruff")); // ruff is default_pre_commit: true
    assert!(!pre.contains(&"pytest")); // pytest default_pre_commit: false
    assert!(ci.contains(&"Ruff"));
    assert!(ci.contains(&"pytest"));
}

#[test]
fn derived_lines_unknown_tool_ids_are_skipped() {
    let c = ProjectConfig {
        language_configs: vec![LanguageConfig {
            language: Language::Go,
            tools: vec!["made-up-tool"],
            common_deps: vec![],
            custom_deps: String::new(),
        }],
        ..Default::default()
    };
    let (pre, ci) = WorkflowsHandler::derived_lines(&c);
    assert!(pre.is_empty());
    assert!(ci.is_empty());
}

// --- planned_actions ---

#[test]
fn planned_actions_describes_selections() {
    let h = WorkflowsHandler::default();
    let c = ProjectConfig {
        workflows: WorkflowConfig {
            ci: Some(CiProvider::GitHubActions),
            pre_commit: Some(PreCommitFramework::PreCommit),
        },
        language_configs: vec![LanguageConfig {
            language: Language::Rust,
            tools: vec!["clippy"],
            common_deps: vec![],
            custom_deps: String::new(),
        }],
        ..Default::default()
    };
    let actions = h.planned_actions(&c);
    assert!(actions.iter().any(|a| a.contains("GitHub Actions")));
    assert!(actions.iter().any(|a| a.contains("pre-commit")));
    assert!(actions.iter().any(|a| a.contains("clippy")));
}

#[test]
fn planned_actions_empty_when_all_none() {
    let h = WorkflowsHandler::default();
    let c = ProjectConfig {
        workflows: WorkflowConfig {
            ci: Some(CiProvider::NoCi),
            pre_commit: Some(PreCommitFramework::NoFramework),
        },
        ..Default::default()
    };
    assert!(h.planned_actions(&c).is_empty());
}

#[test]
fn workflows_execute_is_ok() {
    let h = WorkflowsHandler::default();
    let c = ProjectConfig::default();
    assert!(h.execute(&c).is_ok());
}

