use cinderbox::config::{Language, LanguageConfig, ProjectConfig};
use cinderbox::registry::spec_for;
use cinderbox::steps::languages::{nav_rows, LanguagesHandler, NavRow};
use cinderbox::steps::{Focus, Key, StepResult};

// --- Default state ---

#[test]
fn languages_default_state() {
    let h = LanguagesHandler::default();
    assert_eq!(h.cursor, 0);
    assert!(h.selected.is_empty());
    assert!(h.expanded.is_none());
    assert_eq!(h.focus, Focus::Choice);
    assert!(!h.in_details());
    assert!(!h.is_expanded());
}

// --- Choice-level navigation and toggling ---

#[test]
fn languages_cursor_down_and_up_at_choice_level() {
    let mut h = LanguagesHandler::default();
    let mut c = ProjectConfig::default();
    h.handle_input(Key::Down, &mut c);
    assert_eq!(h.cursor, 1);
    h.handle_input(Key::Char('j'), &mut c);
    assert_eq!(h.cursor, 2);
    h.handle_input(Key::Up, &mut c);
    assert_eq!(h.cursor, 1);
    h.handle_input(Key::Char('k'), &mut c);
    assert_eq!(h.cursor, 0);
}

#[test]
fn languages_cursor_clamps_at_bounds() {
    let mut h = LanguagesHandler::default();
    let mut c = ProjectConfig::default();
    for _ in 0..100 {
        h.handle_input(Key::Down, &mut c);
    }
    // Cursor count is 1 ("Next") + Language::count(), so the max index is `len`.
    assert_eq!(h.cursor, Language::count());
    for _ in 0..100 {
        h.handle_input(Key::Up, &mut c);
    }
    assert_eq!(h.cursor, 0);
}

#[test]
fn languages_enter_on_next_commits_and_advances() {
    // Cursor 0 is the "Next" pseudo-row; pressing Enter there commits the
    // current (possibly empty) selection and advances the wizard.
    let mut h = LanguagesHandler::default();
    let mut c = ProjectConfig::default();
    let result = h.handle_input(Key::Enter, &mut c);
    assert!(matches!(result, StepResult::Done));
    assert!(c.language_configs.is_empty());
}

#[test]
fn languages_right_on_next_commits_and_advances() {
    let mut h = LanguagesHandler::default();
    let mut c = ProjectConfig::default();
    let result = h.handle_input(Key::Right, &mut c);
    assert!(matches!(result, StepResult::Done));
}

#[test]
fn enter_on_supported_lang_checks_and_expands() {
    // Cursor on Rust (index 1 in choice rows): Enter checks the language
    // (if not already) AND expands its sub-menu.
    let mut h = with_cursor_on(Language::Rust);
    let mut c = ProjectConfig::default();
    let result = h.handle_input(Key::Enter, &mut c);
    assert!(matches!(result, StepResult::Continue));
    assert!(h.is_selected(Language::Rust));
    assert_eq!(h.expanded, Some(Language::Rust));
    assert_eq!(h.focus, Focus::SubField(0));
}

#[test]
fn enter_on_unsupported_lang_is_noop() {
    let mut h = with_cursor_on(Language::Go);
    let mut c = ProjectConfig::default();
    let result = h.handle_input(Key::Enter, &mut c);
    assert!(matches!(result, StepResult::Continue));
    assert!(!h.is_selected(Language::Go));
    assert!(h.expanded.is_none());
}

#[test]
fn space_deselects_checked_lang() {
    // Space at choice level deselects only — no-op on unchecked languages,
    // unchecks already-selected languages without expanding them.
    let mut h = with_selected(Language::Rust);
    let mut c = ProjectConfig::default();
    // Cursor is on Rust (with_selected places it there).
    h.handle_input(Key::Char(' '), &mut c);
    assert!(h.selected.is_empty());
    assert!(h.expanded.is_none());
    // Pressing Space again on the now-unchecked language is a no-op
    // (Space is deselect-only — it does not check).
    h.handle_input(Key::Char(' '), &mut c);
    assert!(h.selected.is_empty());
    assert!(h.expanded.is_none());
}

#[test]
fn space_on_unchecked_lang_is_noop() {
    // Space on an unchecked supported language does NOT check it — that's
    // Enter's job. Space only deselects.
    let mut h = with_cursor_on(Language::Rust);
    let mut c = ProjectConfig::default();
    h.handle_input(Key::Char(' '), &mut c);
    assert!(h.selected.is_empty());
    assert!(h.expanded.is_none());
}

#[test]
fn space_on_unsupported_lang_is_noop() {
    let mut h = with_cursor_on(Language::Go);
    let mut c = ProjectConfig::default();
    h.handle_input(Key::Char(' '), &mut c);
    assert!(h.selected.is_empty());
}

#[test]
fn languages_space_on_next_is_noop() {
    let mut h = LanguagesHandler::default();
    let mut c = ProjectConfig::default();
    let result = h.handle_input(Key::Char(' '), &mut c);
    assert!(matches!(result, StepResult::Continue));
    assert!(h.selected.is_empty());
}

#[test]
fn languages_q_quits() {
    let mut h = LanguagesHandler::default();
    let mut c = ProjectConfig::default();
    let result = h.handle_input(Key::Char('q'), &mut c);
    assert!(matches!(result, StepResult::Quit));
}

#[test]
fn languages_left_backs_when_nothing_expanded() {
    let mut h = LanguagesHandler::default();
    let mut c = ProjectConfig::default();
    let result = h.handle_input(Key::Left, &mut c);
    assert!(matches!(result, StepResult::Back));
}

// --- Expansion semantics ---

#[test]
fn right_on_unsupported_language_is_noop() {
    // Unsupported languages (no registry spec) are unselectable; Right does nothing.
    let mut h = with_cursor_on(Language::Go);
    let mut c = ProjectConfig::default();
    let result = h.handle_input(Key::Right, &mut c);
    assert!(matches!(result, StepResult::Continue));
    assert!(h.expanded.is_none());
    assert_eq!(h.focus, Focus::Choice);
}

#[test]
fn right_on_unchecked_supported_language_expands_and_checks() {
    // QA #7: expanding via right arrow / L should work without first toggling
    // the language on. Right both checks and expands in a single step.
    let mut h = with_cursor_on(Language::Python);
    let mut c = ProjectConfig::default();
    let result = h.handle_input(Key::Right, &mut c);
    assert!(matches!(result, StepResult::Continue));
    assert!(h.is_selected(Language::Python));
    assert_eq!(h.expanded, Some(Language::Python));
    assert_eq!(h.focus, Focus::SubField(0));
}

#[test]
fn right_on_checked_language_expands() {
    let mut h = with_selected(Language::Python);
    let mut c = ProjectConfig::default();
    h.handle_input(Key::Right, &mut c);
    assert_eq!(h.expanded, Some(Language::Python));
    assert_eq!(h.focus, Focus::SubField(0));
    assert!(h.in_details());
    assert!(h.is_expanded());
}

#[test]
fn languages_left_collapses_expanded_then_backs() {
    let mut h = with_selected(Language::Python);
    let mut c = ProjectConfig::default();
    h.handle_input(Key::Right, &mut c);
    assert!(h.expanded.is_some());
    // Left from SubField(0) doesn't collapse; user has to Esc first.
    h.focus = Focus::Choice;
    let result = h.handle_input(Key::Left, &mut c);
    assert!(h.expanded.is_none());
    assert!(matches!(result, StepResult::Continue));
    let result = h.handle_input(Key::Left, &mut c);
    assert!(matches!(result, StepResult::Back));
}

#[test]
fn languages_esc_from_subfield_returns_to_choice() {
    let mut h = with_selected(Language::Python);
    let mut c = ProjectConfig::default();
    h.handle_input(Key::Right, &mut c);
    assert_eq!(h.focus, Focus::SubField(0));
    h.handle_input(Key::Esc, &mut c);
    assert_eq!(h.focus, Focus::Choice);
    assert_eq!(h.expanded, Some(Language::Python));
}

// --- 2D cursor navigation within expanded ---

#[test]
fn languages_down_moves_through_nav_rows() {
    let mut h = with_selected(Language::Python);
    let mut c = ProjectConfig::default();
    h.handle_input(Key::Right, &mut c);
    assert_eq!(h.row_cursor, 0);
    h.handle_input(Key::Down, &mut c);
    assert_eq!(h.row_cursor, 1);
    h.handle_input(Key::Char('j'), &mut c);
    assert_eq!(h.row_cursor, 2);
}

#[test]
fn up_from_row_0_returns_to_choice() {
    let mut h = with_selected(Language::Python);
    let mut c = ProjectConfig::default();
    h.handle_input(Key::Right, &mut c);
    h.handle_input(Key::Up, &mut c);
    assert_eq!(h.focus, Focus::Choice);
    assert_eq!(h.expanded, Some(Language::Python));
}

#[test]
fn horizontal_nav_within_tool_row() {
    let mut h = with_selected(Language::Python);
    let mut c = ProjectConfig::default();
    h.handle_input(Key::Right, &mut c);
    assert_eq!(h.col_cursor, 0);
    h.handle_input(Key::Right, &mut c);
    assert_eq!(h.col_cursor, 1);
    h.handle_input(Key::Char('l'), &mut c);
    assert_eq!(h.col_cursor, 2);
    h.handle_input(Key::Left, &mut c);
    assert_eq!(h.col_cursor, 1);
    h.handle_input(Key::Char('h'), &mut c);
    assert_eq!(h.col_cursor, 0);
    h.handle_input(Key::Left, &mut c);
    assert_eq!(h.col_cursor, 0); // clamps at 0
}

// --- Toggle tool / common dep ---

#[test]
fn space_toggles_tool_checkbox() {
    let mut h = with_selected(Language::Python);
    let mut c = ProjectConfig::default();
    h.handle_input(Key::Right, &mut c);
    h.handle_input(Key::Char(' '), &mut c);
    let s = h.scratch_for(Language::Python).unwrap();
    assert_eq!(s.tools.len(), 1);
    h.handle_input(Key::Char(' '), &mut c);
    let s = h.scratch_for(Language::Python).unwrap();
    assert!(s.tools.is_empty());
}

#[test]
fn toggle_common_dep() {
    let mut h = with_selected(Language::Python);
    let mut c = ProjectConfig::default();
    h.handle_input(Key::Right, &mut c);
    let spec = spec_for(Language::Python);
    let rows = nav_rows(&spec);
    let first_common_row = rows
        .iter()
        .position(|r| matches!(r, NavRow::CommonDeps { .. }))
        .expect("Python has common deps");
    h.row_cursor = first_common_row;
    h.col_cursor = 0;
    h.handle_input(Key::Char(' '), &mut c);
    let s = h.scratch_for(Language::Python).unwrap();
    assert_eq!(s.common_deps.len(), 1);
}

// --- Custom deps text input ---

#[test]
fn custom_deps_input_captures_characters() {
    let mut h = with_selected(Language::Python);
    let mut c = ProjectConfig::default();
    h.handle_input(Key::Right, &mut c);
    let spec = spec_for(Language::Python);
    let rows = nav_rows(&spec);
    let text_row = rows
        .iter()
        .position(|r| matches!(r, NavRow::CustomDepsInput))
        .expect("custom deps row exists");
    h.row_cursor = text_row;
    h.col_cursor = 0;
    for ch in "my-lib,other".chars() {
        h.handle_input(Key::Char(ch), &mut c);
    }
    assert_eq!(h.custom_deps_input.value(), "my-lib,other");
    assert_eq!(
        h.scratch_for(Language::Python).unwrap().custom_deps,
        "my-lib,other"
    );
}

// --- Commit semantics ---

#[test]
fn enter_on_subfield_checkbox_toggles() {
    // Enter at sub-level acts like Space on each row: on a checkbox row it
    // toggles the focused checkbox (does NOT collapse).
    let mut h = with_selected(Language::Python);
    let mut c = ProjectConfig::default();
    h.handle_input(Key::Right, &mut c); // expand, focus on first tool row
    let result = h.handle_input(Key::Enter, &mut c);
    assert!(matches!(result, StepResult::Continue));
    // Focus stays in sub-panel; the checkbox is toggled on.
    assert_eq!(h.focus, Focus::SubField(0));
    assert_eq!(h.expanded, Some(Language::Python));
    assert_eq!(h.scratch_for(Language::Python).unwrap().tools.len(), 1);
    // Pressing Enter again toggles it back off.
    h.handle_input(Key::Enter, &mut c);
    assert!(h.scratch_for(Language::Python).unwrap().tools.is_empty());
}

#[test]
fn enter_on_text_input_row_collapses() {
    // Option 3: Enter on the custom-deps text input row collapses, since
    // Space there inserts a literal space character. This preserves a way
    // to confirm without first navigating away from a half-typed dep.
    let mut h = with_selected(Language::Python);
    let mut c = ProjectConfig::default();
    h.handle_input(Key::Right, &mut c);
    let spec = spec_for(Language::Python);
    let rows = nav_rows(&spec);
    let text_row = rows
        .iter()
        .position(|r| matches!(r, NavRow::CustomDepsInput))
        .expect("custom deps row exists");
    h.row_cursor = text_row;
    h.col_cursor = 0;
    for ch in "my-lib".chars() {
        h.handle_input(Key::Char(ch), &mut c);
    }
    let result = h.handle_input(Key::Enter, &mut c);
    assert!(matches!(result, StepResult::Continue));
    assert_eq!(h.focus, Focus::Choice);
    assert!(h.expanded.is_none());
    // The half-typed dep is persisted into scratch.
    assert_eq!(
        h.scratch_for(Language::Python).unwrap().custom_deps,
        "my-lib"
    );
}

#[test]
fn languages_full_flow_configure_and_advance() {
    let mut h = with_cursor_on(Language::Python);
    let mut c = ProjectConfig::default();
    // Enter on Python: check + expand
    h.handle_input(Key::Enter, &mut c);
    // Toggle a tool with Space
    h.handle_input(Key::Char(' '), &mut c);
    // Navigate to the Confirm row and press Enter to collapse.
    let rows = h.current_nav_rows();
    h.row_cursor = rows.len() - 1;
    h.handle_input(Key::Enter, &mut c);
    assert_eq!(h.focus, Focus::Choice);
    // Navigate up to "Next"
    for _ in 0..20 {
        h.handle_input(Key::Up, &mut c);
    }
    assert_eq!(h.cursor, 0);
    // Enter on Next: commit + advance
    let result = h.handle_input(Key::Enter, &mut c);
    assert!(matches!(result, StepResult::Done));
    assert_eq!(c.language_configs.len(), 1);
    assert_eq!(c.language_configs[0].language, Language::Python);
    assert_eq!(c.language_configs[0].tools.len(), 1);
}

#[test]
fn languages_confirm_button_collapses_via_enter() {
    let mut h = with_selected(Language::Python);
    let mut c = ProjectConfig::default();
    h.handle_input(Key::Right, &mut c); // expand
    // Move to the Confirm row (last nav row)
    let rows = h.current_nav_rows();
    h.row_cursor = rows.len() - 1;
    let result = h.handle_input(Key::Enter, &mut c);
    assert!(matches!(result, StepResult::Continue));
    assert_eq!(h.focus, Focus::Choice);
    assert!(h.expanded.is_none());
    assert!(h.is_selected(Language::Python));
}

#[test]
fn languages_confirm_button_collapses_via_space() {
    let mut h = with_selected(Language::Python);
    let mut c = ProjectConfig::default();
    h.handle_input(Key::Right, &mut c);
    let rows = h.current_nav_rows();
    h.row_cursor = rows.len() - 1;
    h.handle_input(Key::Char(' '), &mut c);
    assert_eq!(h.focus, Focus::Choice);
    assert!(h.expanded.is_none());
}

#[test]
fn languages_nav_rows_always_end_with_confirm() {
    let python_rows = nav_rows(&spec_for(Language::Python));
    assert!(matches!(python_rows.last(), Some(NavRow::Confirm)));
    let rust_rows = nav_rows(&spec_for(Language::Rust));
    assert!(matches!(rust_rows.last(), Some(NavRow::Confirm)));
    let go_rows = nav_rows(&spec_for(Language::Go));
    // Empty-spec language: only the Confirm row.
    assert_eq!(go_rows.len(), 1);
    assert!(matches!(go_rows[0], NavRow::Confirm));
}

#[test]
fn commit_drops_unchecked_languages() {
    let mut h = LanguagesHandler {
        selected: vec![Language::Python],
        scratch: vec![LanguageConfig {
            language: Language::Rust,
            tools: vec!["clippy"],
            common_deps: vec![],
            custom_deps: String::new(),
        }],
        ..Default::default()
    };
    let mut c = ProjectConfig::default();
    h.commit_to_config(&mut c);
    assert_eq!(c.language_configs.len(), 1);
    assert_eq!(c.language_configs[0].language, Language::Python);
}

#[test]
fn languages_uncheck_then_recheck_preserves_scratch() {
    // Configure Python (toggle a tool), collapse, uncheck via Space,
    // re-check via Enter — scratch state should persist across the toggle.
    let mut h = with_selected(Language::Python);
    let mut c = ProjectConfig::default();
    h.handle_input(Key::Right, &mut c); // expand
    h.handle_input(Key::Char(' '), &mut c); // toggle ruff (sub-level)
    h.handle_input(Key::Esc, &mut c); // back to choice
    h.handle_input(Key::Left, &mut c); // collapse
    h.handle_input(Key::Char(' '), &mut c); // uncheck via Space
    assert!(!h.is_selected(Language::Python));
    assert_eq!(h.scratch_for(Language::Python).unwrap().tools.len(), 1);
    h.handle_input(Key::Enter, &mut c); // re-check via Enter (also expands)
    assert!(h.is_selected(Language::Python));
    assert_eq!(h.scratch_for(Language::Python).unwrap().tools.len(), 1);
}

#[test]
fn restore_from_config_rehydrates_selected_and_scratch() {
    let mut h = LanguagesHandler::default();
    let c = ProjectConfig {
        language_configs: vec![LanguageConfig {
            language: Language::Python,
            tools: vec!["ruff"],
            common_deps: vec!["fastapi"],
            custom_deps: "my-lib".to_string(),
        }],
        ..Default::default()
    };
    h.restore_from_config(&c);
    assert_eq!(h.selected, vec![Language::Python]);
    assert_eq!(h.scratch_for(Language::Python).unwrap().tools, vec!["ruff"]);
    assert_eq!(
        h.scratch_for(Language::Python).unwrap().common_deps,
        vec!["fastapi"]
    );
    assert_eq!(
        h.scratch_for(Language::Python).unwrap().custom_deps,
        "my-lib"
    );
}

// --- Empty-spec / unsupported languages ---
//
// After QA #5, unsupported languages are unselectable from the choice list,
// so the Right/Enter expansion paths no longer reach them via the keyboard.
// Direct setup tests still confirm the empty-spec rendering shape.

#[test]
fn empty_spec_has_only_confirm_row() {
    let rows = nav_rows(&spec_for(Language::Go));
    assert_eq!(rows.len(), 1);
    assert!(matches!(rows[0], NavRow::Confirm));
}

// --- Tab cycling flattens 2D cursor ---

#[test]
fn tab_advances_linearly_through_columns_then_rows() {
    // Python's first row is Linters with 3 tools (ruff, black, pylint).
    // Cursor starts at (0, 0); Tab walks columns, then wraps to next row.
    let mut h = with_selected(Language::Python);
    let mut c = ProjectConfig::default();
    h.handle_input(Key::Right, &mut c);
    let py_first_cat_cols = spec_for(Language::Python).categories[0].tools.len();
    let mut col = 0usize;
    for _ in 0..(py_first_cat_cols - 1) {
        h.handle_input(Key::Tab, &mut c);
        col += 1;
        assert_eq!((h.row_cursor, h.col_cursor), (0, col));
    }
    // Next Tab wraps to row 1, col 0
    h.handle_input(Key::Tab, &mut c);
    assert_eq!((h.row_cursor, h.col_cursor), (1, 0));
}

#[test]
fn backtab_moves_linearly_backward() {
    // BackTab from (0, 0) wraps to the last position — which is the Confirm row.
    let mut h = with_selected(Language::Python);
    let mut c = ProjectConfig::default();
    h.handle_input(Key::Right, &mut c);
    h.handle_input(Key::BackTab, &mut c);
    let rows = nav_rows(&spec_for(Language::Python));
    let last_row = rows.len() - 1;
    assert!(matches!(rows[last_row], NavRow::Confirm));
    assert_eq!((h.row_cursor, h.col_cursor), (last_row, 0));
}

// --- planned_actions / execute ---

#[test]
fn planned_actions_empty_without_languages() {
    let h = LanguagesHandler::default();
    let c = ProjectConfig::default();
    assert!(h.planned_actions(&c).is_empty());
}

#[test]
fn planned_actions_include_tool_list() {
    let h = LanguagesHandler::default();
    let c = ProjectConfig {
        language_configs: vec![
            LanguageConfig {
                language: Language::Python,
                tools: vec!["ruff", "pytest"],
                common_deps: vec![],
                custom_deps: String::new(),
            },
            LanguageConfig::new(Language::Rust),
        ],
        ..Default::default()
    };
    let actions = h.planned_actions(&c);
    assert_eq!(actions.len(), 2);
    assert!(actions[0].contains("Python"));
    assert!(actions[0].contains("ruff"));
    assert!(actions[0].contains("pytest"));
    assert!(actions[1].contains("Rust"));
}

#[test]
fn languages_execute_is_ok() {
    let h = LanguagesHandler::default();
    let c = ProjectConfig::default();
    assert!(h.execute(&c).is_ok());
}

// --- helpers ---

fn with_selected(lang: Language) -> LanguagesHandler {
    // Cursor 0 is the "Next" pseudo-row; languages occupy 1..=12, so the
    // language at VARIANTS index `i` lives at cursor `i + 1`.
    let idx = Language::variants().iter().position(|l| *l == lang).unwrap();
    LanguagesHandler {
        cursor: idx + 1,
        selected: vec![lang],
        ..Default::default()
    }
}

fn with_cursor_on(lang: Language) -> LanguagesHandler {
    let idx = Language::variants().iter().position(|l| *l == lang).unwrap();
    LanguagesHandler {
        cursor: idx + 1,
        ..Default::default()
    }
}

