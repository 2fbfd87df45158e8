use std::path::Path;

use cinderbox::config::{ProjectConfig, ProjectType};
use cinderbox::steps::project_type::{PathFacts, ProjectTypeHandler, PtAction, TypeChoice};
use cinderbox::steps::{Focus, Key, StepResult};
use cinderbox::widgets::text_input::TextInput;

/// What the file system says about the handler's current paths, as the
/// program asks it before each key.
fn facts(h: &ProjectTypeHandler) -> PathFacts {
    PathFacts {
        target_exists: Path::new(&h.full_path()).exists(),
        location_exists: Path::new(&h.location_input.value()).exists(),
    }
}

fn press(h: &mut ProjectTypeHandler, key: Key, c: &mut ProjectConfig) -> StepResult {
    let f = facts(h);
    let (r, action) = h.handle_input(key, c, f);
    if action == PtAction::Validate {
        let f = facts(h);
        h.validate(f);
    }
    r
}

fn validate(h: &mut ProjectTypeHandler) {
    let f = facts(h);
    h.validate(f);
}

fn with_expanded(expanded: TypeChoice) -> ProjectTypeHandler {
    let mut h = ProjectTypeHandler::default();
    h.expanded = Some(expanded);
    h
}

// --- Default state ---

#[test]
fn project_type_default_state() {
    let h = ProjectTypeHandler::default();
    assert_eq!(h.focus, Focus::Choice);
    assert!(h.expanded.is_none());
    assert_eq!(h.choice_cursor, 0);
    assert!(!h.in_details());
    assert!(!h.is_expanded());
}

// --- Choice navigation ---

#[test]
fn choice_navigation_down_up() {
    let mut h = ProjectTypeHandler::default();
    let mut c = ProjectConfig::default();
    press(&mut h, Key::Down, &mut c);
    assert_eq!(h.choice_cursor, 1);
    press(&mut h, Key::Down, &mut c);
    assert_eq!(h.choice_cursor, 1); // clamped at max
    press(&mut h, Key::Up, &mut c);
    assert_eq!(h.choice_cursor, 0);
    press(&mut h, Key::Up, &mut c);
    assert_eq!(h.choice_cursor, 0); // clamped at 0
}

// --- Expanding choices ---

#[test]
fn enter_expands_new() {
    let mut h = ProjectTypeHandler::default();
    let mut c = ProjectConfig::default();
    press(&mut h, Key::Enter, &mut c);
    assert_eq!(h.expanded, Some(TypeChoice::New));
    assert_eq!(h.focus, Focus::SubField(0));
    assert!(h.in_details());
    assert!(h.is_expanded());
}

#[test]
fn enter_expands_existing() {
    let mut h = ProjectTypeHandler::default();
    let mut c = ProjectConfig::default();
    h.choice_cursor = 1;
    press(&mut h, Key::Enter, &mut c);
    assert_eq!(h.expanded, Some(TypeChoice::Existing));
    assert_eq!(h.focus, Focus::SubField(0));
}

// --- max_subfield ---

#[test]
fn max_subfield_new_is_2() {
    let h = with_expanded(TypeChoice::New);
    assert_eq!(h.max_subfield(), 2);
}

#[test]
fn max_subfield_existing_is_1() {
    let h = with_expanded(TypeChoice::Existing);
    assert_eq!(h.max_subfield(), 1);
}

// --- Esc from subfield returns to choice ---

#[test]
fn project_type_esc_returns_to_choice() {
    let mut h = ProjectTypeHandler::default();
    let mut c = ProjectConfig::default();
    press(&mut h, Key::Enter, &mut c);
    assert_eq!(h.focus, Focus::SubField(0));
    press(&mut h, Key::Esc, &mut c);
    assert_eq!(h.focus, Focus::Choice);
}

// --- Left collapses expanded, then goes back ---

#[test]
fn project_type_left_collapses_then_backs() {
    let mut h = ProjectTypeHandler::default();
    let mut c = ProjectConfig::default();
    // Expand
    press(&mut h, Key::Enter, &mut c);
    h.focus = Focus::Choice; // simulate being back at choice level
    let result = press(&mut h, Key::Left, &mut c);
    assert!(h.expanded.is_none());
    assert!(matches!(result, StepResult::Continue));
    let result = press(&mut h, Key::Left, &mut c);
    assert!(matches!(result, StepResult::Back));
}

// --- Quit ---

#[test]
fn project_type_q_quits() {
    let mut h = ProjectTypeHandler::default();
    let mut c = ProjectConfig::default();
    let result = press(&mut h, Key::Char('q'), &mut c);
    assert!(matches!(result, StepResult::Quit));
}

// --- Tab cycling in New (3 subfields: name, location, browse) ---

#[test]
fn tab_cycles_new_subfields() {
    let mut h = ProjectTypeHandler::default();
    let mut c = ProjectConfig::default();
    press(&mut h, Key::Enter, &mut c); // expand New
    assert_eq!(h.focus, Focus::SubField(0));
    press(&mut h, Key::Tab, &mut c);
    assert_eq!(h.focus, Focus::SubField(1));
    press(&mut h, Key::Tab, &mut c);
    assert_eq!(h.focus, Focus::SubField(2));
    press(&mut h, Key::Tab, &mut c);
    assert_eq!(h.focus, Focus::SubField(0)); // wraps
}

#[test]
fn backtab_cycles_new_subfields() {
    let mut h = ProjectTypeHandler::default();
    let mut c = ProjectConfig::default();
    press(&mut h, Key::Enter, &mut c);
    assert_eq!(h.focus, Focus::SubField(0));
    press(&mut h, Key::BackTab, &mut c);
    assert_eq!(h.focus, Focus::SubField(2)); // wraps to browse
}

// --- Text input forwarding ---

#[test]
fn typing_in_name_subfield() {
    let mut h = ProjectTypeHandler::default();
    let mut c = ProjectConfig::default();
    press(&mut h, Key::Enter, &mut c); // expand New, focus name
    press(&mut h, Key::Char('a'), &mut c);
    press(&mut h, Key::Char('b'), &mut c);
    assert_eq!(h.name_input.value(), "ab");
}

#[test]
fn typing_in_location_subfield_new() {
    let mut h = ProjectTypeHandler::default();
    let mut c = ProjectConfig::default();
    press(&mut h, Key::Enter, &mut c);
    press(&mut h, Key::Tab, &mut c); // move to location
    // Clear existing location value first
    h.location_input = TextInput::new("Location");
    press(&mut h, Key::Char('/'), &mut c);
    assert!(h.location_input.value().contains('/'));
}

// --- planned_actions ---

#[test]
fn planned_actions_new_project() {
    let h = ProjectTypeHandler::default();
    let c = ProjectConfig {
        project_type: Some(ProjectType::New),
        project_name: "myapp".to_string(),
        project_location: "/home/user".to_string(),
        ..Default::default()
    };
    let actions = h.planned_actions(&c);
    assert_eq!(actions.len(), 1);
    assert!(actions[0].contains("/home/user/myapp"));
}

#[test]
fn planned_actions_existing_project() {
    let h = ProjectTypeHandler::default();
    let c = ProjectConfig {
        project_type: Some(ProjectType::Existing),
        project_location: "/home/user/existing".to_string(),
        ..Default::default()
    };
    let actions = h.planned_actions(&c);
    assert_eq!(actions.len(), 1);
    assert!(actions[0].contains("/home/user/existing"));
}

#[test]
fn planned_actions_empty_name() {
    let h = ProjectTypeHandler::default();
    let c = ProjectConfig {
        project_type: Some(ProjectType::New),
        project_name: String::new(),
        ..Default::default()
    };
    assert!(h.planned_actions(&c).is_empty());
}

#[test]
fn project_type_planned_actions_none() {
    let h = ProjectTypeHandler::default();
    let c = ProjectConfig::default();
    assert!(h.planned_actions(&c).is_empty());
}

// --- Validation (New project) ---

#[test]
fn validate_new_requires_name() {
    let mut h = with_expanded(TypeChoice::New);
    h.name_input = TextInput::new("Name");
    h.location_input = TextInput::new("Location").with_value("/tmp");
    validate(&mut h);
    assert!(h.validation_msg.contains("required"));
}

#[test]
fn validate_new_warns_missing_parent() {
    let mut h = with_expanded(TypeChoice::New);
    h.name_input = TextInput::new("Name").with_value("proj");
    h.location_input = TextInput::new("Location").with_value("/nonexistent_xyz_path_42");
    validate(&mut h);
    assert!(h.validation_msg.contains("Warning"));
}

#[test]
fn validate_new_shows_will_create() {
    let mut h = with_expanded(TypeChoice::New);
    h.name_input = TextInput::new("Name").with_value("new_test_project_xyz");
    h.location_input = TextInput::new("Location").with_value("/tmp");
    validate(&mut h);
    assert!(h.validation_msg.contains("Will create"));
}

// --- Validation (Existing project) ---

#[test]
fn validate_existing_requires_location() {
    let mut h = with_expanded(TypeChoice::Existing);
    h.location_input = TextInput::new("Location");
    validate(&mut h);
    assert!(h.validation_msg.contains("required"));
}

#[test]
fn validate_existing_warns_nonexistent() {
    let mut h = with_expanded(TypeChoice::Existing);
    h.location_input = TextInput::new("Location").with_value("/nonexistent_xyz_path_42");
    validate(&mut h);
    assert!(h.validation_msg.contains("Warning"));
}

#[test]
fn validate_existing_shows_will_use() {
    let mut h = with_expanded(TypeChoice::Existing);
    h.location_input = TextInput::new("Location").with_value("/tmp");
    validate(&mut h);
    assert!(h.validation_msg.contains("Will use"));
}

// --- is_valid ---

#[test]
fn is_valid_false_when_no_expansion() {
    let h = ProjectTypeHandler::default();
    assert!(!h.is_valid(facts(&h)));
}

#[test]
fn is_valid_new_with_valid_path() {
    let mut h = with_expanded(TypeChoice::New);
    h.name_input = TextInput::new("Name").with_value("unique_test_proj_abc");
    h.location_input = TextInput::new("Location").with_value("/tmp");
    assert!(h.is_valid(facts(&h)));
}

#[test]
fn is_valid_existing_with_real_path() {
    let mut h = with_expanded(TypeChoice::Existing);
    h.location_input = TextInput::new("Location").with_value("/tmp");
    assert!(h.is_valid(facts(&h)));
}

// --- derived_name ---

#[test]
fn derived_name_from_path() {
    let mut h = ProjectTypeHandler::default();
    h.location_input = TextInput::new("Location").with_value("/home/user/myproject");
    assert_eq!(h.derived_name(), "myproject");
}

// --- Enter on valid New commits to config ---

#[test]
fn enter_commits_valid_new_project() {
    let mut h = ProjectTypeHandler::default();
    let mut c = ProjectConfig::default();
    press(&mut h, Key::Enter, &mut c); // expand New
    h.name_input = TextInput::new("Name").with_value("unique_test_proj_def");
    h.location_input = TextInput::new("Location").with_value("/tmp");
    let result = press(&mut h, Key::Enter, &mut c);
    assert!(matches!(result, StepResult::Done));
    assert_eq!(c.project_type, Some(ProjectType::New));
    assert_eq!(c.project_name, "unique_test_proj_def");
    assert_eq!(c.project_location, "/tmp");
}

#[test]
fn enter_commits_valid_existing_project() {
    let mut h = ProjectTypeHandler::default();
    let mut c = ProjectConfig::default();
    h.choice_cursor = 1;
    press(&mut h, Key::Enter, &mut c); // expand Existing
    h.location_input = TextInput::new("Location").with_value("/tmp");
    let result = press(&mut h, Key::Enter, &mut c);
    assert!(matches!(result, StepResult::Done));
    assert_eq!(c.project_type, Some(ProjectType::Existing));
    assert_eq!(c.project_name, "tmp");
    assert_eq!(c.project_location, "/tmp");
}

// --- Enter on invalid stays ---

#[test]
fn enter_on_invalid_continues() {
    let mut h = ProjectTypeHandler::default();
    let mut c = ProjectConfig::default();
    press(&mut h, Key::Enter, &mut c); // expand New
    h.name_input = TextInput::new("Name"); // empty name = invalid
    let result = press(&mut h, Key::Enter, &mut c);
    assert!(matches!(result, StepResult::Continue));
}

// --- nothing to create for an existing directory ---

#[test]
fn execute_noop_for_existing() {
    let c = ProjectConfig {
        project_type: Some(ProjectType::Existing),
        project_location: "/tmp".to_string(),
        ..Default::default()
    };
    assert!(ProjectTypeHandler::dir_to_create(&c).is_none());
}

// --- further cases ---

#[test]
fn dir_to_create_for_new_project_joins_name() {
    let c = ProjectConfig {
        project_type: Some(ProjectType::New),
        project_name: "subdir".to_string(),
        project_location: "/tmp/cinderbox_case".to_string(),
        ..Default::default()
    };
    assert_eq!(
        ProjectTypeHandler::dir_to_create(&c),
        Some("/tmp/cinderbox_case/subdir".to_string())
    );
}

#[test]
fn dir_to_create_none_without_name() {
    let c = ProjectConfig {
        project_type: Some(ProjectType::New),
        project_location: "/tmp".to_string(),
        ..Default::default()
    };
    assert!(ProjectTypeHandler::dir_to_create(&c).is_none());
}

#[test]
fn full_path_joins_name_for_new_only() {
    let mut h = with_expanded(TypeChoice::New);
    h.name_input = TextInput::new("Name").with_value("proj");
    h.location_input = TextInput::new("Location").with_value("/srv");
    assert_eq!(h.full_path(), "/srv/proj");
    h.expanded = Some(TypeChoice::Existing);
    assert_eq!(h.full_path(), "/srv");
}

#[test]
fn planned_actions_exact_text() {
    let h = ProjectTypeHandler::default();
    let c = ProjectConfig {
        project_type: Some(ProjectType::New),
        project_name: "myapp".to_string(),
        project_location: "/home/user".to_string(),
        ..Default::default()
    };
    assert_eq!(h.planned_actions(&c), vec!["Create directory: /home/user/myapp".to_string()]);
    let c = ProjectConfig {
        project_type: Some(ProjectType::Existing),
        project_location: "/home/user/existing".to_string(),
        ..Default::default()
    };
    assert_eq!(
        h.planned_actions(&c),
        vec!["Use existing directory: /home/user/existing".to_string()]
    );
}

#[test]
fn validation_messages_exact_text() {
    let mut h = with_expanded(TypeChoice::New);
    h.name_input = TextInput::new("Name").with_value("proj");
    h.location_input = TextInput::new("Location").with_value("/srv");
    h.validate(PathFacts { target_exists: true, location_exists: true });
    assert_eq!(h.validation_msg, "Warning: /srv/proj already exists.");
    h.validate(PathFacts { target_exists: false, location_exists: false });
    assert_eq!(h.validation_msg, "Warning: parent /srv does not exist.");
    h.validate(PathFacts { target_exists: false, location_exists: true });
    assert_eq!(h.validation_msg, "Will create: /srv/proj");
    h.expanded = Some(TypeChoice::Existing);
    h.validate(PathFacts { target_exists: false, location_exists: false });
    assert_eq!(h.validation_msg, "Warning: /srv does not exist.");
    h.validate(PathFacts { target_exists: true, location_exists: true });
    assert_eq!(h.validation_msg, "Will use: /srv");
    h.expanded = None;
    h.validate(PathFacts { target_exists: true, location_exists: true });
    assert!(h.validation_msg.is_empty());
}

#[test]
fn down_from_new_browse_moves_to_existing() {
    let mut h = ProjectTypeHandler::default();
    let mut c = ProjectConfig::default();
    press(&mut h, Key::Enter, &mut c);
    press(&mut h, Key::BackTab, &mut c); // browse button
    press(&mut h, Key::Down, &mut c);
    assert_eq!(h.focus, Focus::Choice);
    assert_eq!(h.choice_cursor, 1);
}

#[test]
fn enter_or_space_on_browse_asks_for_browser() {
    let mut h = ProjectTypeHandler::default();
    let mut c = ProjectConfig::default();
    press(&mut h, Key::Enter, &mut c);
    h.focus = Focus::SubField(2);
    let f = facts(&h);
    assert_eq!(h.handle_input(Key::Enter, &mut c, f), (StepResult::Continue, PtAction::Browse));
    assert_eq!(h.handle_input(Key::Char(' '), &mut c, f), (StepResult::Continue, PtAction::Browse));
    // typing on the browse button changes nothing
    assert_eq!(h.handle_input(Key::Char('x'), &mut c, f), (StepResult::Continue, PtAction::Nothing));
    assert_eq!(h.location_input.value(), "");
}

#[test]
fn browsing_start_stop_and_select() {
    let mut h = ProjectTypeHandler::default();
    let mut c = ProjectConfig::default();
    h.choice_cursor = 1;
    press(&mut h, Key::Enter, &mut c); // expand Existing
    h.start_browsing();
    assert_eq!(h.focus, Focus::Browsing);
    assert!(h.in_details());
    // keys go to the browser while it is open
    let f = facts(&h);
    assert_eq!(h.handle_input(Key::Char('q'), &mut c, f), (StepResult::Continue, PtAction::Nothing));
    h.stop_browsing();
    assert_eq!(h.focus, Focus::SubField(1));
    h.start_browsing();
    h.browse_selected("/tmp");
    assert_eq!(h.focus, Focus::SubField(0));
    assert_eq!(h.location_input.value(), "/tmp");
    assert_eq!(h.location_input.cursor(), 4);
}

#[test]
fn restore_reopens_new_project() {
    let mut h = ProjectTypeHandler::default();
    let c = ProjectConfig {
        project_type: Some(ProjectType::New),
        project_name: "myapp".to_string(),
        project_location: "/tmp".to_string(),
        ..Default::default()
    };
    assert_eq!(h.restore_from_config(&c), PtAction::Validate);
    assert_eq!(h.choice_cursor, 0);
    assert_eq!(h.expanded, Some(TypeChoice::New));
    assert_eq!(h.focus, Focus::SubField(0));
    assert_eq!(h.name_input.value(), "myapp");
    assert_eq!(h.location_input.value(), "/tmp");
}

#[test]
fn restore_existing_without_name_only_moves_cursor() {
    let mut h = ProjectTypeHandler::default();
    let c = ProjectConfig {
        project_type: Some(ProjectType::Existing),
        project_location: "/tmp".to_string(),
        ..Default::default()
    };
    assert_eq!(h.restore_from_config(&c), PtAction::Nothing);
    assert_eq!(h.choice_cursor, 1);
    assert!(h.expanded.is_none());
    assert_eq!(h.focus, Focus::Choice);
}

#[test]
fn restore_then_enter_commits_same_project() {
    let mut h = ProjectTypeHandler::default();
    let mut c = ProjectConfig {
        project_type: Some(ProjectType::New),
        project_name: "unique_restore_proj_ghi".to_string(),
        project_location: "/tmp".to_string(),
        ..Default::default()
    };
    h.restore_from_config(&c);
    validate(&mut h);
    let result = press(&mut h, Key::Enter, &mut c);
    assert!(matches!(result, StepResult::Done));
    assert_eq!(c.project_type, Some(ProjectType::New));
    assert_eq!(c.project_name, "unique_restore_proj_ghi");
    assert_eq!(c.project_location, "/tmp");
}
