use cinderbox::config::{ProjectConfig, Vcs};
use cinderbox::steps::vcs::VcsHandler;
use cinderbox::steps::{Focus, Key, StepResult};

// --- Default state ---

#[test]
fn vcs_default_state() {
    let h = VcsHandler::default();
    assert_eq!(h.focus, Focus::Choice);
    assert!(h.expanded.is_none());
    assert_eq!(h.choice_cursor, 0);
    assert_eq!(h.default_branch_input.value(), "main");
    assert!(h.jj_colocate);
}

// --- Choice navigation ---

#[test]
fn choice_down_and_up() {
    let mut h = VcsHandler::default();
    let mut c = ProjectConfig::default();
    h.handle_input(Key::Down, &mut c);
    assert_eq!(h.choice_cursor, 1);
    h.handle_input(Key::Down, &mut c);
    assert_eq!(h.choice_cursor, 2);
    h.handle_input(Key::Down, &mut c);
    assert_eq!(h.choice_cursor, 2); // clamped
    h.handle_input(Key::Up, &mut c);
    assert_eq!(h.choice_cursor, 1);
}

#[test]
fn choice_j_k_navigation() {
    let mut h = VcsHandler::default();
    let mut c = ProjectConfig::default();
    h.handle_input(Key::Char('j'), &mut c);
    assert_eq!(h.choice_cursor, 1);
    h.handle_input(Key::Char('k'), &mut c);
    assert_eq!(h.choice_cursor, 0);
}

// --- Selecting "None" commits immediately ---

#[test]
fn selecting_none_commits_and_returns_done() {
    let mut h = VcsHandler::default();
    let mut c = ProjectConfig::default();
    h.choice_cursor = 2; // None
    let result = h.handle_input(Key::Enter, &mut c);
    assert!(matches!(result, StepResult::Done));
    assert_eq!(c.vcs, Some(Vcs::NoVcs));
    assert!(c.default_branch.is_empty());
    assert!(!c.jj_colocate);
}

// --- Expanding Git ---

#[test]
fn enter_on_git_expands_to_subfield() {
    let mut h = VcsHandler::default();
    let mut c = ProjectConfig::default();
    h.handle_input(Key::Enter, &mut c);
    assert_eq!(h.expanded, Some(Vcs::Git));
    assert_eq!(h.focus, Focus::SubField(0));
}

#[test]
fn git_enter_in_subfield_commits_config() {
    let mut h = VcsHandler::default();
    let mut c = ProjectConfig::default();
    h.handle_input(Key::Enter, &mut c); // expand Git
    h.handle_input(Key::Enter, &mut c); // confirm
    assert_eq!(c.vcs, Some(Vcs::Git));
    assert_eq!(c.default_branch, "main");
    assert!(!c.jj_colocate);
}

// --- Expanding Jujutsu ---

#[test]
fn jujutsu_has_two_subfields() {
    let mut h = VcsHandler::default();
    let mut c = ProjectConfig::default();
    h.choice_cursor = 1;
    h.handle_input(Key::Enter, &mut c); // expand Jujutsu
    assert_eq!(h.expanded, Some(Vcs::Jujutsu));
    assert_eq!(h.max_subfield(), 1);
}

#[test]
fn jujutsu_colocate_toggle() {
    let mut h = VcsHandler::default();
    let mut c = ProjectConfig::default();
    h.choice_cursor = 1;
    h.handle_input(Key::Enter, &mut c); // expand Jujutsu
    assert_eq!(h.focus, Focus::SubField(0)); // colocate row
    assert!(h.jj_colocate);
    h.handle_input(Key::Char(' '), &mut c);
    assert!(!h.jj_colocate);
    h.handle_input(Key::Char(' '), &mut c);
    assert!(h.jj_colocate);
}

#[test]
fn jujutsu_colocate_left_right() {
    let mut h = VcsHandler::default();
    let mut c = ProjectConfig::default();
    h.choice_cursor = 1;
    h.handle_input(Key::Enter, &mut c);
    h.handle_input(Key::Right, &mut c); // colocate = false
    assert!(!h.jj_colocate);
    h.handle_input(Key::Left, &mut c); // colocate = true
    assert!(h.jj_colocate);
}

#[test]
fn jujutsu_commit_with_colocate() {
    let mut h = VcsHandler::default();
    let mut c = ProjectConfig::default();
    h.choice_cursor = 1;
    h.handle_input(Key::Enter, &mut c); // expand
    h.handle_input(Key::Enter, &mut c); // confirm
    assert_eq!(c.vcs, Some(Vcs::Jujutsu));
    assert!(c.jj_colocate);
    assert_eq!(c.default_branch, "main");
}

// --- Tab/BackTab cycling ---

#[test]
fn tab_cycles_subfields_jujutsu() {
    let mut h = VcsHandler::default();
    let mut c = ProjectConfig::default();
    h.choice_cursor = 1;
    h.handle_input(Key::Enter, &mut c);
    assert_eq!(h.focus, Focus::SubField(0));
    h.handle_input(Key::Tab, &mut c);
    assert_eq!(h.focus, Focus::SubField(1));
    h.handle_input(Key::Tab, &mut c);
    assert_eq!(h.focus, Focus::SubField(0)); // wraps
}

#[test]
fn backtab_cycles_subfields_jujutsu() {
    let mut h = VcsHandler::default();
    let mut c = ProjectConfig::default();
    h.choice_cursor = 1;
    h.handle_input(Key::Enter, &mut c);
    assert_eq!(h.focus, Focus::SubField(0));
    h.handle_input(Key::BackTab, &mut c);
    assert_eq!(h.focus, Focus::SubField(1)); // wraps back
}

// --- Esc returns to choice ---

#[test]
fn vcs_esc_from_subfield_returns_to_choice() {
    let mut h = VcsHandler::default();
    let mut c = ProjectConfig::default();
    h.handle_input(Key::Enter, &mut c); // expand Git
    assert_eq!(h.focus, Focus::SubField(0));
    h.handle_input(Key::Esc, &mut c);
    assert_eq!(h.focus, Focus::Choice);
}

// --- Left collapses, then backs ---

#[test]
fn vcs_left_collapses_then_backs() {
    let mut h = VcsHandler::default();
    let mut c = ProjectConfig::default();
    h.handle_input(Key::Enter, &mut c); // expand
    h.focus = Focus::Choice;
    let result = h.handle_input(Key::Left, &mut c);
    assert!(h.expanded.is_none()); // collapsed
    assert!(matches!(result, StepResult::Continue));
    let result = h.handle_input(Key::Left, &mut c);
    assert!(matches!(result, StepResult::Back));
}

// --- Quit ---

#[test]
fn q_in_choice_quits() {
    let mut h = VcsHandler::default();
    let mut c = ProjectConfig::default();
    let result = h.handle_input(Key::Char('q'), &mut c);
    assert!(matches!(result, StepResult::Quit));
}

// --- planned_actions ---

#[test]
fn planned_actions_git() {
    let h = VcsHandler::default();
    let c = ProjectConfig {
        vcs: Some(Vcs::Git),
        default_branch: "main".to_string(),
        ..Default::default()
    };
    let actions = h.planned_actions(&c);
    assert_eq!(actions.len(), 2);
    assert!(actions[0].contains("git"));
    assert!(actions[1].contains("main"));
}

#[test]
fn planned_actions_jj_colocated() {
    let h = VcsHandler::default();
    let c = ProjectConfig {
        vcs: Some(Vcs::Jujutsu),
        jj_colocate: true,
        default_branch: "trunk".to_string(),
        ..Default::default()
    };
    let actions = h.planned_actions(&c);
    assert!(actions[0].contains("colocated"));
    assert!(actions[1].contains("trunk"));
}

#[test]
fn planned_actions_jj_native() {
    let h = VcsHandler::default();
    let c = ProjectConfig {
        vcs: Some(Vcs::Jujutsu),
        jj_colocate: false,
        default_branch: "main".to_string(),
        ..Default::default()
    };
    let actions = h.planned_actions(&c);
    assert_eq!(actions.len(), 1);
    assert!(actions[0].contains("native"));
}

#[test]
fn vcs_planned_actions_none() {
    let h = VcsHandler::default();
    let c = ProjectConfig {
        vcs: Some(Vcs::NoVcs),
        ..Default::default()
    };
    assert!(h.planned_actions(&c).is_empty());
}

#[test]
fn planned_actions_unset() {
    let h = VcsHandler::default();
    let c = ProjectConfig::default();
    assert!(h.planned_actions(&c).is_empty());
}

// --- restore_from_config ---

#[test]
fn restore_from_config_git() {
    let mut h = VcsHandler::default();
    let c = ProjectConfig {
        vcs: Some(Vcs::Git),
        default_branch: "develop".to_string(),
        ..Default::default()
    };
    h.restore_from_config(&c);
    assert_eq!(h.choice_cursor, 0);
    assert_eq!(h.expanded, Some(Vcs::Git));
    assert_eq!(h.focus, Focus::SubField(0));
    assert_eq!(h.default_branch_input.value(), "develop");
}

#[test]
fn restore_from_config_none_does_not_expand() {
    let mut h = VcsHandler::default();
    let c = ProjectConfig {
        vcs: Some(Vcs::NoVcs),
        ..Default::default()
    };
    h.restore_from_config(&c);
    assert_eq!(h.choice_cursor, 2);
    assert!(h.expanded.is_none());
    assert_eq!(h.focus, Focus::Choice);
}

// --- execute is no-op ---

#[test]
fn vcs_execute_is_ok() {
    let h = VcsHandler::default();
    let c = ProjectConfig::default();
    assert!(h.execute(&c).is_ok());
}

