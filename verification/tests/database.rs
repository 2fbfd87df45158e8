use cinderbox::config::{Database, DatabaseConfig, Language, LanguageConfig, ProjectConfig, RunMode};
use cinderbox::steps::database::{db_choice, db_choice_count, port_problem, DatabaseHandler, DbNavRow};
use cinderbox::steps::{Focus, Key, StepResult};

fn db_choices() -> Vec<Database> {
    (0..db_choice_count()).map(db_choice).collect()
}

fn config_with_languages(langs: &[Language]) -> ProjectConfig {
    ProjectConfig {
        language_configs: langs
            .iter()
            .map(|l| LanguageConfig::new(*l))
            .collect(),
        ..Default::default()
    }
}

fn with_cursor_on(db: Database) -> DatabaseHandler {
    let idx = db_choices().iter().position(|d| *d == db).unwrap();
    DatabaseHandler {
        cursor: idx + 1,
        ..Default::default()
    }
}

fn with_selected(db: Database) -> DatabaseHandler {
    let idx = db_choices().iter().position(|d| *d == db).unwrap();
    DatabaseHandler {
        cursor: idx + 1,
        selected: vec![db],
        ..Default::default()
    }
}

// --- Defaults ---

#[test]
fn database_default_state() {
    let h = DatabaseHandler::default();
    assert_eq!(h.focus, Focus::Choice);
    assert!(h.expanded.is_none());
    assert_eq!(h.cursor, 0);
    assert!(h.selected.is_empty());
    assert!(h.scratch.is_empty());
    assert!(!h.in_details());
    assert!(!h.is_expanded());
}

// --- Choice navigation ---

#[test]
fn database_cursor_down_and_up_at_choice_level() {
    let mut h = DatabaseHandler::default();
    let mut c = ProjectConfig::default();
    h.handle_input(Key::Down, &mut c);
    assert_eq!(h.cursor, 1);
    h.handle_input(Key::Char('j'), &mut c);
    assert_eq!(h.cursor, 2);
    h.handle_input(Key::Up, &mut c);
    assert_eq!(h.cursor, 1);
    h.handle_input(Key::Char('k'), &mut c);
    assert_eq!(h.cursor, 0);
}

#[test]
fn database_cursor_clamps_at_bounds() {
    let mut h = DatabaseHandler::default();
    let mut c = ProjectConfig::default();
    for _ in 0..20 {
        h.handle_input(Key::Down, &mut c);
    }
    assert_eq!(h.cursor, db_choice_count());
    for _ in 0..20 {
        h.handle_input(Key::Up, &mut c);
    }
    assert_eq!(h.cursor, 0);
}

// --- Next row ---

#[test]
fn database_enter_on_next_commits_and_advances() {
    let mut h = DatabaseHandler::default();
    let mut c = ProjectConfig::default();
    let result = h.handle_input(Key::Enter, &mut c);
    assert!(matches!(result, StepResult::Done));
    assert!(c.database_configs.is_empty());
}

#[test]
fn database_right_on_next_commits_and_advances() {
    let mut h = DatabaseHandler::default();
    let mut c = ProjectConfig::default();
    let result = h.handle_input(Key::Right, &mut c);
    assert!(matches!(result, StepResult::Done));
}

#[test]
fn enter_on_next_with_selections_commits_all() {
    let mut h = DatabaseHandler {
        selected: vec![Database::PostgreSQL, Database::Redis],
        ..Default::default()
    };
    h.scratch_mut_for(Database::PostgreSQL);
    h.scratch_mut_for(Database::Redis);
    let mut c = ProjectConfig::default();
    let result = h.handle_input(Key::Enter, &mut c);
    assert!(matches!(result, StepResult::Done));
    assert_eq!(c.database_configs.len(), 2);
    assert_eq!(c.database_configs[0].database, Database::PostgreSQL);
    assert_eq!(c.database_configs[1].database, Database::Redis);
}

// --- Select and expand ---

#[test]
fn enter_on_db_checks_and_expands() {
    let mut h = with_cursor_on(Database::PostgreSQL);
    let mut c = ProjectConfig::default();
    let result = h.handle_input(Key::Enter, &mut c);
    assert!(matches!(result, StepResult::Continue));
    assert!(h.is_selected(Database::PostgreSQL));
    assert_eq!(h.expanded, Some(Database::PostgreSQL));
    assert_eq!(h.focus, Focus::SubField(0));
}

#[test]
fn space_deselects_checked_db() {
    let mut h = with_selected(Database::PostgreSQL);
    let mut c = ProjectConfig::default();
    h.handle_input(Key::Char(' '), &mut c);
    assert!(h.selected.is_empty());
    assert!(h.expanded.is_none());
}

#[test]
fn space_on_unchecked_db_is_noop() {
    let mut h = with_cursor_on(Database::PostgreSQL);
    let mut c = ProjectConfig::default();
    h.handle_input(Key::Char(' '), &mut c);
    assert!(h.selected.is_empty());
}

#[test]
fn database_space_on_next_is_noop() {
    let mut h = DatabaseHandler::default();
    let mut c = ProjectConfig::default();
    let result = h.handle_input(Key::Char(' '), &mut c);
    assert!(matches!(result, StepResult::Continue));
    assert!(h.selected.is_empty());
}

// --- Left / collapse / back ---

#[test]
fn database_left_collapses_expanded_then_backs() {
    let mut h = with_selected(Database::PostgreSQL);
    let mut c = ProjectConfig::default();
    h.handle_input(Key::Right, &mut c);
    assert!(h.expanded.is_some());
    h.focus = Focus::Choice;
    let result = h.handle_input(Key::Left, &mut c);
    assert!(h.expanded.is_none());
    assert!(matches!(result, StepResult::Continue));
    let result = h.handle_input(Key::Left, &mut c);
    assert!(matches!(result, StepResult::Back));
}

#[test]
fn database_left_backs_when_nothing_expanded() {
    let mut h = DatabaseHandler::default();
    let mut c = ProjectConfig::default();
    let result = h.handle_input(Key::Left, &mut c);
    assert!(matches!(result, StepResult::Back));
}

// --- Esc ---

#[test]
fn database_esc_from_subfield_returns_to_choice() {
    let mut h = with_selected(Database::PostgreSQL);
    let mut c = ProjectConfig::default();
    h.handle_input(Key::Right, &mut c);
    assert_eq!(h.focus, Focus::SubField(0));
    h.handle_input(Key::Esc, &mut c);
    assert_eq!(h.focus, Focus::Choice);
    assert_eq!(h.expanded, Some(Database::PostgreSQL));
}

// --- Up from row 0 ---

#[test]
fn database_up_from_row_zero_returns_to_choice() {
    let mut h = with_selected(Database::PostgreSQL);
    let mut c = ProjectConfig::default();
    h.handle_input(Key::Right, &mut c);
    h.handle_input(Key::Up, &mut c);
    assert_eq!(h.focus, Focus::Choice);
    assert_eq!(h.expanded, Some(Database::PostgreSQL));
}

// --- nav_rows shape ---

fn handler_with_upstream(expanded: Database, langs: &[Language]) -> DatabaseHandler {
    let mut h = DatabaseHandler {
        expanded: Some(expanded),
        ..Default::default()
    };
    h.scratch_mut_for(expanded);
    h.upstream_languages = langs.to_vec();
    h
}

#[test]
fn server_db_with_no_languages_has_run_mode_port_confirm() {
    let h = handler_with_upstream(Database::PostgreSQL, &[]);
    let rows = h.nav_rows();
    assert_eq!(rows.len(), 3);
    assert!(matches!(rows[0], DbNavRow::RunMode));
    assert!(matches!(rows[1], DbNavRow::Port));
    assert!(matches!(rows[2], DbNavRow::Confirm));
}

#[test]
fn server_db_with_python_includes_python_drivers() {
    let h = handler_with_upstream(Database::PostgreSQL, &[Language::Python]);
    let rows = h.nav_rows();
    assert_eq!(rows.len(), 4);
    assert!(matches!(rows[0], DbNavRow::RunMode));
    assert!(matches!(
        rows[1],
        DbNavRow::Drivers {
            language: Language::Python,
            ..
        }
    ));
    assert!(matches!(rows[2], DbNavRow::Port));
    assert!(matches!(rows[3], DbNavRow::Confirm));
}

#[test]
fn sqlite_skips_run_mode_and_port() {
    let h = handler_with_upstream(Database::SQLite, &[Language::Python, Language::Rust]);
    let rows = h.nav_rows();
    assert_eq!(rows.len(), 3);
    assert!(matches!(
        rows[0],
        DbNavRow::Drivers {
            language: Language::Python,
            ..
        }
    ));
    assert!(matches!(
        rows[1],
        DbNavRow::Drivers {
            language: Language::Rust,
            ..
        }
    ));
    assert!(matches!(rows[2], DbNavRow::Confirm));
}

#[test]
fn drivers_filtered_by_upstream_languages() {
    let h = handler_with_upstream(Database::PostgreSQL, &[Language::Rust]);
    let rows = h.nav_rows();
    let driver_rows: Vec<_> = rows
        .iter()
        .filter(|r| matches!(r, DbNavRow::Drivers { .. }))
        .collect();
    assert_eq!(driver_rows.len(), 1);
    assert!(matches!(
        driver_rows[0],
        DbNavRow::Drivers {
            language: Language::Rust,
            ..
        }
    ));
}

#[test]
fn database_nav_rows_always_end_with_confirm() {
    let h1 = handler_with_upstream(Database::PostgreSQL, &[]);
    let rows1 = h1.nav_rows();
    assert!(matches!(rows1.last(), Some(DbNavRow::Confirm)));

    let h2 = handler_with_upstream(Database::SQLite, &[Language::Python]);
    let rows2 = h2.nav_rows();
    assert!(matches!(rows2.last(), Some(DbNavRow::Confirm)));
}

// --- Run mode interaction ---

#[test]
fn run_mode_left_right() {
    let mut h = with_selected(Database::PostgreSQL);
    let mut c = ProjectConfig::default();
    h.handle_input(Key::Right, &mut c); // expand
    // Start: Docker. Right -> Native.
    h.handle_input(Key::Right, &mut c);
    assert_eq!(h.current_run_mode(), RunMode::Native);
    // Right -> Managed.
    h.handle_input(Key::Right, &mut c);
    assert_eq!(h.current_run_mode(), RunMode::Managed);
    // Right at last is no-op.
    h.handle_input(Key::Right, &mut c);
    assert_eq!(h.current_run_mode(), RunMode::Managed);
    // Left -> Native.
    h.handle_input(Key::Left, &mut c);
    assert_eq!(h.current_run_mode(), RunMode::Native);
    // Left -> Docker.
    h.handle_input(Key::Left, &mut c);
    assert_eq!(h.current_run_mode(), RunMode::Docker);
    // Left at first is no-op.
    h.handle_input(Key::Left, &mut c);
    assert_eq!(h.current_run_mode(), RunMode::Docker);
}

#[test]
fn run_mode_space_cycles_with_wrap() {
    let mut h = with_selected(Database::PostgreSQL);
    let mut c = ProjectConfig::default();
    h.handle_input(Key::Right, &mut c);
    // Set to Managed via scratch
    h.scratch_mut_for(Database::PostgreSQL).run_mode = Some(RunMode::Managed);
    h.handle_input(Key::Char(' '), &mut c);
    assert_eq!(h.current_run_mode(), RunMode::Docker); // wraps
}

// --- Driver toggling ---

#[test]
fn driver_space_toggles() {
    let mut h = with_selected(Database::PostgreSQL);
    let mut c = config_with_languages(&[Language::Python]);
    h.handle_input(Key::Right, &mut c); // expand
    // Move to the first driver row
    h.handle_input(Key::Down, &mut c); // row 1 = Python drivers
    h.handle_input(Key::Char(' '), &mut c); // toggle psycopg
    assert!(h.driver_checked(Language::Python, "psycopg"));
    h.handle_input(Key::Char(' '), &mut c); // untoggle
    assert!(!h.driver_checked(Language::Python, "psycopg"));
}

#[test]
fn enter_on_driver_row_toggles_not_advances() {
    let mut h = with_selected(Database::PostgreSQL);
    let mut c = config_with_languages(&[Language::Python]);
    h.handle_input(Key::Right, &mut c);
    h.handle_input(Key::Down, &mut c); // driver row
    let result = h.handle_input(Key::Enter, &mut c);
    assert!(matches!(result, StepResult::Continue));
    assert!(h.driver_checked(Language::Python, "psycopg"));
    assert_eq!(h.focus, Focus::SubField(0)); // still in sub-panel
}

#[test]
fn enter_on_run_mode_cycles() {
    let mut h = with_selected(Database::PostgreSQL);
    let mut c = ProjectConfig::default();
    h.handle_input(Key::Right, &mut c); // expand, row 0 = RunMode
    let result = h.handle_input(Key::Enter, &mut c);
    assert!(matches!(result, StepResult::Continue));
    assert_eq!(h.current_run_mode(), RunMode::Native); // cycled from Docker
}

// --- Port validation ---

#[test]
fn port_problem_empty_is_valid() {
    assert!(port_problem("").is_none());
}

#[test]
fn port_problem_letters_invalid() {
    assert!(port_problem("abc").is_some());
    assert!(port_problem("80a").is_some());
}

#[test]
fn port_problem_zero_invalid() {
    assert!(port_problem("0").is_some());
}

#[test]
fn port_problem_in_range_valid() {
    assert!(port_problem("1").is_none());
    assert!(port_problem("5432").is_none());
    assert!(port_problem("65535").is_none());
}

#[test]
fn port_problem_out_of_range_invalid() {
    assert!(port_problem("65536").is_some());
    assert!(port_problem("100000").is_some());
}

// --- Confirm button ---

#[test]
fn database_confirm_button_collapses_via_enter() {
    let mut h = with_selected(Database::PostgreSQL);
    let mut c = ProjectConfig::default();
    h.handle_input(Key::Right, &mut c);
    let rows = h.nav_rows();
    h.row_cursor = rows.len() - 1; // Confirm row
    let result = h.handle_input(Key::Enter, &mut c);
    assert!(matches!(result, StepResult::Continue));
    assert_eq!(h.focus, Focus::Choice);
    assert!(h.expanded.is_none());
    assert!(h.is_selected(Database::PostgreSQL));
}

#[test]
fn database_confirm_button_collapses_via_space() {
    let mut h = with_selected(Database::PostgreSQL);
    let mut c = ProjectConfig::default();
    h.handle_input(Key::Right, &mut c);
    let rows = h.nav_rows();
    h.row_cursor = rows.len() - 1;
    h.handle_input(Key::Char(' '), &mut c);
    assert_eq!(h.focus, Focus::Choice);
    assert!(h.expanded.is_none());
}

#[test]
fn confirm_blocked_with_invalid_port() {
    let mut h = with_selected(Database::PostgreSQL);
    let mut c = ProjectConfig::default();
    h.handle_input(Key::Right, &mut c);
    h.port_input.set_value("99999");
    let rows = h.nav_rows();
    h.row_cursor = rows.len() - 1;
    h.handle_input(Key::Enter, &mut c);
    assert_eq!(h.expanded, Some(Database::PostgreSQL), "Confirm should not collapse");
}

// --- Next blocked with invalid port ---

#[test]
fn next_blocked_when_selected_db_has_invalid_port() {
    let mut h = with_selected(Database::PostgreSQL);
    h.scratch_mut_for(Database::PostgreSQL).port = "99999".to_string();
    let mut c = ProjectConfig::default();
    h.cursor = 0; // Next
    let result = h.handle_input(Key::Enter, &mut c);
    assert!(matches!(result, StepResult::Continue));
    assert!(c.database_configs.is_empty());
}

#[test]
fn next_advances_when_invalid_port_db_is_unchecked() {
    let mut h = DatabaseHandler::default();
    // Add scratch with bad port but don't select the DB
    h.scratch_mut_for(Database::PostgreSQL).port = "99999".to_string();
    let mut c = ProjectConfig::default();
    let result = h.handle_input(Key::Enter, &mut c);
    assert!(matches!(result, StepResult::Done));
}

// --- Port text input ---

#[test]
fn enter_on_port_row_collapses() {
    let mut h = with_selected(Database::PostgreSQL);
    let mut c = ProjectConfig::default();
    h.handle_input(Key::Right, &mut c);
    // Find the port row
    let rows = h.nav_rows();
    let port_row = rows
        .iter()
        .position(|r| matches!(r, DbNavRow::Port))
        .unwrap();
    h.row_cursor = port_row;
    let result = h.handle_input(Key::Enter, &mut c);
    assert!(matches!(result, StepResult::Continue));
    assert_eq!(h.focus, Focus::Choice);
    assert!(h.expanded.is_none());
}

#[test]
fn enter_on_port_with_invalid_value_does_not_collapse() {
    let mut h = with_selected(Database::PostgreSQL);
    let mut c = ProjectConfig::default();
    h.handle_input(Key::Right, &mut c);
    let rows = h.nav_rows();
    let port_row = rows
        .iter()
        .position(|r| matches!(r, DbNavRow::Port))
        .unwrap();
    h.row_cursor = port_row;
    // Type invalid port
    for ch in "99999".chars() {
        h.handle_input(Key::Char(ch), &mut c);
    }
    let result = h.handle_input(Key::Enter, &mut c);
    assert!(matches!(result, StepResult::Continue));
    assert_eq!(h.expanded, Some(Database::PostgreSQL)); // still expanded
}

#[test]
fn port_chars_are_captured() {
    let mut h = with_selected(Database::PostgreSQL);
    let mut c = ProjectConfig::default();
    h.handle_input(Key::Right, &mut c);
    let rows = h.nav_rows();
    let port_row = rows
        .iter()
        .position(|r| matches!(r, DbNavRow::Port))
        .unwrap();
    h.row_cursor = port_row;
    for ch in "5433".chars() {
        h.handle_input(Key::Char(ch), &mut c);
    }
    assert_eq!(h.port_input.value(), "5433");
    // Scratch is synced
    assert_eq!(h.scratch_for(Database::PostgreSQL).unwrap().port, "5433");
}

// --- Full flow ---

#[test]
fn database_full_flow_configure_and_advance() {
    let mut h = with_cursor_on(Database::PostgreSQL);
    let mut c = config_with_languages(&[Language::Python]);
    // Enter: check + expand
    h.handle_input(Key::Enter, &mut c);
    assert!(h.is_selected(Database::PostgreSQL));
    assert_eq!(h.focus, Focus::SubField(0));
    // Toggle a driver
    h.handle_input(Key::Down, &mut c); // driver row
    h.handle_input(Key::Char(' '), &mut c);
    // Navigate to Confirm
    let rows = h.nav_rows();
    h.row_cursor = rows.len() - 1;
    h.handle_input(Key::Enter, &mut c); // collapse
    assert_eq!(h.focus, Focus::Choice);
    // Navigate up to Next
    for _ in 0..20 {
        h.handle_input(Key::Up, &mut c);
    }
    assert_eq!(h.cursor, 0);
    // Enter on Next: commit + advance
    let result = h.handle_input(Key::Enter, &mut c);
    assert!(matches!(result, StepResult::Done));
    assert_eq!(c.database_configs.len(), 1);
    assert_eq!(
        c.database_configs[0].database,
        Database::PostgreSQL
    );
}

#[test]
fn multi_select_two_databases() {
    let mut h = DatabaseHandler::default();
    let mut c = ProjectConfig::default();
    // Select PostgreSQL
    h.cursor = db_choices().iter().position(|d| *d == Database::PostgreSQL).unwrap() + 1;
    h.handle_input(Key::Enter, &mut c); // check + expand
    h.handle_input(Key::Esc, &mut c); // back to choice
    // Select Redis
    h.cursor = db_choices().iter().position(|d| *d == Database::Redis).unwrap() + 1;
    h.handle_input(Key::Enter, &mut c);
    h.handle_input(Key::Esc, &mut c);
    assert_eq!(h.selected.len(), 2);
    // Next
    h.cursor = 0;
    let result = h.handle_input(Key::Enter, &mut c);
    assert!(matches!(result, StepResult::Done));
    assert_eq!(c.database_configs.len(), 2);
}

// --- Uncheck then recheck preserves scratch ---

#[test]
fn database_uncheck_then_recheck_preserves_scratch() {
    let mut h = with_selected(Database::PostgreSQL);
    let mut c = config_with_languages(&[Language::Python]);
    h.handle_input(Key::Right, &mut c); // expand
    h.handle_input(Key::Down, &mut c); // driver row
    h.handle_input(Key::Char(' '), &mut c); // toggle driver
    h.handle_input(Key::Esc, &mut c); // back to choice
    h.handle_input(Key::Left, &mut c); // collapse
    h.handle_input(Key::Char(' '), &mut c); // uncheck
    assert!(!h.is_selected(Database::PostgreSQL));
    assert!(h.scratch_for(Database::PostgreSQL).unwrap().drivers.len() == 1);
    h.handle_input(Key::Enter, &mut c); // re-check via Enter (also expands)
    assert!(h.is_selected(Database::PostgreSQL));
    assert!(h.scratch_for(Database::PostgreSQL).unwrap().drivers.len() == 1);
}

// --- Restore ---

#[test]
fn database_restore_from_config_rehydrates() {
    let mut h = DatabaseHandler::default();
    let c = ProjectConfig {
        database_configs: vec![DatabaseConfig {
            database: Database::MySQL,
            run_mode: Some(RunMode::Native),
            drivers: vec![(Language::Python, "pymysql")],
            port: "3307".to_string(),
        }],
        ..Default::default()
    };
    h.restore_from_config(&c);
    assert_eq!(h.selected, vec![Database::MySQL]);
    assert_eq!(h.scratch.len(), 1);
    assert_eq!(h.scratch[0].run_mode, Some(RunMode::Native));
    assert_eq!(h.scratch[0].drivers, vec![(Language::Python, "pymysql")]);
    assert_eq!(h.scratch[0].port, "3307");
}

// --- Tab cycling ---

#[test]
fn tab_cycles_flat_positions() {
    let mut h = with_selected(Database::PostgreSQL);
    let mut c = config_with_languages(&[Language::Python]);
    h.handle_input(Key::Right, &mut c); // expand
    // RunMode(3) + Drivers(4) + Port(1) + Confirm(1) = 9 flat positions
    let mut seen = vec![(h.row_cursor, h.col_cursor)];
    for _ in 0..8 {
        h.handle_input(Key::Tab, &mut c);
        seen.push((h.row_cursor, h.col_cursor));
    }
    assert_eq!(seen.len(), 9);
    h.handle_input(Key::Tab, &mut c);
    assert_eq!((h.row_cursor, h.col_cursor), (0, 0)); // wraps
}

// --- Quit ---

#[test]
fn database_q_quits() {
    let mut h = DatabaseHandler::default();
    let mut c = ProjectConfig::default();
    let result = h.handle_input(Key::Char('q'), &mut c);
    assert!(matches!(result, StepResult::Quit));
}

// --- planned_actions ---

#[test]
fn planned_actions_empty_when_no_databases() {
    let h = DatabaseHandler::default();
    let c = ProjectConfig::default();
    assert!(h.planned_actions(&c).is_empty());
}

#[test]
fn planned_actions_postgres_with_drivers() {
    let h = DatabaseHandler::default();
    let c = ProjectConfig {
        database_configs: vec![DatabaseConfig {
            database: Database::PostgreSQL,
            run_mode: Some(RunMode::Docker),
            drivers: vec![(Language::Python, "psycopg"), (Language::Rust, "sqlx")],
            port: String::new(),
        }],
        ..Default::default()
    };
    let actions = h.planned_actions(&c);
    assert!(actions[0].contains("PostgreSQL"));
    assert!(actions.iter().any(|a| a.contains("Docker")));
    assert!(actions
        .iter()
        .any(|a| a.contains("psycopg") && a.contains("sqlx")));
}

// --- execute ---

#[test]
fn database_execute_is_ok() {
    let h = DatabaseHandler::default();
    let c = ProjectConfig::default();
    assert!(h.execute(&c).is_ok());
}

// --- in_details / is_expanded ---

#[test]
fn in_details_false_at_choice() {
    let h = DatabaseHandler::default();
    assert!(!h.in_details());
}

#[test]
fn in_details_true_in_subfield() {
    let h = DatabaseHandler {
        focus: Focus::SubField(0),
        ..Default::default()
    };
    assert!(h.in_details());
}

#[test]
fn is_expanded_tracks_expanded_field() {
    let mut h = DatabaseHandler::default();
    assert!(!h.is_expanded());
    h.expanded = Some(Database::PostgreSQL);
    assert!(h.is_expanded());
}

