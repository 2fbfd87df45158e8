use cinderbox::config::{
    CiProvider, Database, DatabaseConfig, Extra, Language, LanguageConfig, PreCommitFramework,
    ProjectConfig, ProjectType, RemoteProvider, RunMode, Vcs, WorkflowConfig,
};
use cinderbox::summary::format_config_list;
use cinderbox::wizard::{Wizard, WizardStep};

// --- ProjectConfig defaults ---

#[test]
fn project_config_defaults_are_none_or_empty() {
    let c = ProjectConfig::default();
    assert!(c.project_type.is_none());
    assert!(c.project_name.is_empty());
    assert!(c.project_location.is_empty());
    assert!(c.vcs.is_none());
    assert!(c.default_branch.is_empty());
    assert!(!c.jj_colocate);
    assert!(c.language_configs.is_empty());
    assert!(c.workflows.ci.is_none());
    assert!(c.workflows.pre_commit.is_none());
    assert!(c.database_configs.is_empty());
    assert!(c.remotes.is_empty());
    assert!(c.extras.is_empty());
}

#[test]
fn project_config_fields_are_independent() {
    let mut c = ProjectConfig {
        project_type: Some(ProjectType::New),
        project_name: "test".to_string(),
        ..Default::default()
    };
    assert!(c.vcs.is_none());
    assert!(c.language_configs.is_empty());

    c.vcs = Some(Vcs::Git);
    c.default_branch = "develop".to_string();
    assert_eq!(c.project_name, "test");
    assert!(c.database_configs.is_empty());
}

// --- Enum labels ---

#[test]
fn project_type_display() {
    assert_eq!(ProjectType::New.label(), "New");
    assert_eq!(ProjectType::Existing.label(), "Existing");
}

#[test]
fn vcs_display() {
    assert_eq!(Vcs::Git.label(), "Git");
    assert_eq!(Vcs::Jujutsu.label(), "Jujutsu (jj)");
    assert_eq!(Vcs::NoVcs.label(), "Skip");
}

#[test]
fn language_display_special_cases() {
    assert_eq!(Language::CSharp.label(), "C#");
    assert_eq!(Language::Cpp.label(), "C/C++");
    assert_eq!(Language::Rust.label(), "Rust");
}

#[test]
fn extra_display() {
    assert_eq!(Extra::Gitignore.label(), ".gitignore");
    assert_eq!(Extra::Readme.label(), "README");
    assert_eq!(Extra::License.label(), "LICENSE");
}

// --- WizardStep option_count ---

#[test]
fn wizard_step_option_counts() {
    assert_eq!(WizardStep::ProjectType.option_count(), ProjectType::variants().len());
    assert_eq!(WizardStep::Vcs.option_count(), Vcs::variants().len());
    assert_eq!(WizardStep::Languages.option_count(), Language::variants().len());
    assert_eq!(WizardStep::Database.option_count(), Database::variants().len());
    assert_eq!(WizardStep::Remotes.option_count(), RemoteProvider::variants().len());
    assert_eq!(WizardStep::Extras.option_count(), Extra::variants().len());
    assert_eq!(WizardStep::Summary.option_count(), 0);
}

// --- Step navigation ---

#[test]
fn app_starts_at_step_zero() {
    let app = Wizard::default();
    assert_eq!(app.step_index, 0);
    assert!(matches!(app.current_step(), WizardStep::ProjectType));
}

#[test]
fn next_advances_step() {
    let mut app = Wizard::default();
    app.next();
    assert_eq!(app.step_index, 1);
    assert!(matches!(app.current_step(), WizardStep::Vcs));
}

#[test]
fn next_clamps_at_last_step() {
    let mut app = Wizard::default();
    for _ in 0..100 {
        app.next();
    }
    assert_eq!(app.step_index, WizardStep::variants().len() - 1);
    assert!(matches!(app.current_step(), WizardStep::Summary));
}

#[test]
fn prev_clamps_at_zero() {
    let mut app = Wizard::default();
    app.prev();
    assert_eq!(app.step_index, 0);
}

#[test]
fn prev_goes_back() {
    let mut app = Wizard::default();
    app.next();
    app.next();
    assert_eq!(app.step_index, 2);
    app.prev();
    assert_eq!(app.step_index, 1);
}

fn step_index_of(step: WizardStep) -> usize {
    WizardStep::variants().iter().position(|s| *s == step).unwrap()
}

#[test]
fn cursor_down_respects_option_count() {
    let mut app = Wizard {
        step_index: step_index_of(WizardStep::Remotes),
        cursor: 0,
        ..Default::default()
    };
    let count = app.current_step().option_count();
    for _ in 0..count + 5 {
        app.cursor_down();
    }
    assert_eq!(app.cursor, count - 1);
}

#[test]
fn cursor_up_clamps_at_zero() {
    let mut app = Wizard {
        step_index: step_index_of(WizardStep::Remotes),
        cursor: 2,
        ..Default::default()
    };
    app.cursor_up();
    assert_eq!(app.cursor, 1);
    app.cursor_up();
    assert_eq!(app.cursor, 0);
    app.cursor_up();
    assert_eq!(app.cursor, 0);
}

#[test]
fn summary_select_confirms() {
    let mut app = Wizard {
        step_index: WizardStep::variants().len() - 1,
        ..Default::default()
    };
    assert!(!app.confirmed);
    app.select();
    assert!(app.confirmed);
    assert!(app.exit);
}

// --- Config summary formatting ---

#[test]
fn config_summary_shows_dash_for_unset() {
    let app = Wizard::default();
    let summary = app.config_summary();
    assert!(summary.contains("Project Type: —"));
    assert!(summary.contains("Name: —"));
    assert!(summary.contains("VCS: —"));
}

#[test]
fn config_summary_shows_set_values() {
    let mut app = Wizard::default();
    app.config.project_type = Some(ProjectType::New);
    app.config.project_name = "myproj".to_string();
    app.config.project_location = "/tmp".to_string();
    app.config.vcs = Some(Vcs::Git);
    app.config.default_branch = "main".to_string();
    let summary = app.config_summary();
    assert!(summary.contains("Project Type: New"));
    assert!(summary.contains("Name: myproj"));
    assert!(summary.contains("Location: /tmp"));
    assert!(summary.contains("VCS: Git"));
    assert!(summary.contains("Default branch: main"));
}

#[test]
fn config_summary_jj_colocated_shows_mode() {
    let mut app = Wizard::default();
    app.config.vcs = Some(Vcs::Jujutsu);
    app.config.jj_colocate = true;
    app.config.default_branch = "trunk".to_string();
    let summary = app.config_summary();
    assert!(summary.contains("Colocated with git"));
    assert!(summary.contains("Default branch: trunk"));
}

#[test]
fn config_summary_jj_native_hides_branch() {
    let mut app = Wizard::default();
    app.config.vcs = Some(Vcs::Jujutsu);
    app.config.jj_colocate = false;
    app.config.default_branch = "trunk".to_string();
    let summary = app.config_summary();
    assert!(summary.contains("Mode: Native"));
    assert!(!summary.contains("Default branch:"));
}

#[test]
fn step_count_is_eight() {
    assert_eq!(WizardStep::variants().len(), 8);
}

#[test]
fn workflows_step_is_inserted_between_languages_and_database() {
    let languages = step_index_of(WizardStep::Languages);
    let workflows = step_index_of(WizardStep::Workflows);
    let database = step_index_of(WizardStep::Database);
    assert_eq!(workflows, languages + 1);
    assert_eq!(database, workflows + 1);
}

#[test]
fn summary_shows_database_block() {
    let mut app = Wizard::default();
    app.config.database_configs = vec![DatabaseConfig {
        database: Database::PostgreSQL,
        run_mode: Some(RunMode::Docker),
        drivers: vec![(Language::Python, "psycopg"), (Language::Rust, "sqlx")],
        port: "5433".to_string(),
    }];
    let summary = app.config_summary();
    assert!(summary.contains("Database: PostgreSQL"));
    assert!(summary.contains("Run mode: Docker"));
    assert!(summary.contains("Port: 5433"));
    assert!(summary.contains("Rust: sqlx"));
    assert!(summary.contains("Python: psycopg"));
}

#[test]
fn summary_shows_database_default_port_when_empty() {
    let mut app = Wizard::default();
    app.config.database_configs = vec![DatabaseConfig {
        database: Database::PostgreSQL,
        run_mode: Some(RunMode::Docker),
        drivers: vec![],
        port: String::new(),
    }];
    let summary = app.config_summary();
    assert!(summary.contains("Port: 5432 (default)"));
}

#[test]
fn summary_shows_database_none_inline() {
    let mut app = Wizard::default();
    app.config.database_configs = vec![DatabaseConfig {
        database: Database::NoDatabase,
        run_mode: None,
        drivers: vec![],
        port: String::new(),
    }];
    let summary = app.config_summary();
    assert!(summary.contains("Database: None"));
    assert!(!summary.contains("Run mode"));
    assert!(!summary.contains("Port:"));
}

#[test]
fn summary_shows_database_dash_when_unset() {
    let app = Wizard::default();
    let summary = app.config_summary();
    assert!(summary.contains("Database: —"));
}

#[test]
fn summary_shows_language_tools_and_workflows() {
    let mut app = Wizard::default();
    app.config.language_configs = vec![LanguageConfig {
        language: Language::Python,
        tools: vec!["ruff", "pytest"],
        common_deps: vec!["fastapi"],
        custom_deps: "my-lib".to_string(),
    }];
    app.config.workflows = WorkflowConfig {
        ci: Some(CiProvider::GitHubActions),
        pre_commit: Some(PreCommitFramework::PreCommit),
    };
    let summary = app.config_summary();
    assert!(summary.contains("Python:"));
    assert!(summary.contains("Tools: ruff, pytest"));
    assert!(summary.contains("Dependencies: fastapi, my-lib"));
    assert!(summary.contains("CI: GitHub Actions"));
    assert!(summary.contains("Pre-commit: pre-commit"));
}

fn labels(items: &[Language]) -> Vec<String> {
    items.iter().map(|l| l.label().to_string()).collect()
}

#[test]
fn format_config_list_empty() {
    let empty: Vec<Language> = vec![];
    assert_eq!(format_config_list("Languages", &labels(&empty), "—"), "Languages: —");
}

#[test]
fn format_config_list_multiple() {
    let items = vec![Language::Rust, Language::Go];
    assert_eq!(format_config_list("Languages", &labels(&items), "—"), "Languages: Rust, Go");
}

#[test]
fn render_multi_select_list_shows_checks() {
    let app = Wizard { cursor: 0, ..Default::default() };
    let variants = labels(&[Language::Rust, Language::Go]);
    let selected = labels(&[Language::Go]);
    let output = app.render_multi_select_list(&variants, &selected);
    assert!(output.contains("[x] Go"));
    assert!(output.contains("[ ] Rust"));
}
