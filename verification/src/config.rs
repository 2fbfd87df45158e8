//! The project configuration the wizard fills in, and the choices it offers.

use vstd::prelude::*;


verus! {

/// Programming languages offered by the Languages step.
#[derive(Debug, Clone, Copy, PartialEq, Eq, Structural)]
pub enum Language {
    Rust,
    Python,
    Go,
    JavaScript,
    TypeScript,
    Java,
    CSharp,
    Cpp,
    Ruby,
    Zig,
    Haskell,
    Lua,
}

/// All languages, in display order.
pub open spec fn spec_languages() -> Seq<Language> {
    seq![
        Language::Rust,
        Language::Python,
        Language::Go,
        Language::JavaScript,
        Language::TypeScript,
        Language::Java,
        Language::CSharp,
        Language::Cpp,
        Language::Ruby,
        Language::Zig,
        Language::Haskell,
        Language::Lua,
    ]
}

impl Language {
    /// All languages, in display order.
    pub fn variants() -> (r: Vec<Language>)
        ensures
            r@ == spec_languages(),
    {
        let r = vec![
            Language::Rust,
            Language::Python,
            Language::Go,
            Language::JavaScript,
            Language::TypeScript,
            Language::Java,
            Language::CSharp,
            Language::Cpp,
            Language::Ruby,
            Language::Zig,
            Language::Haskell,
            Language::Lua,
        ];
        assert(r@ =~= spec_languages());
        r
    }

    /// The number of languages.
    pub fn count() -> (r: usize)
        ensures
            r == spec_languages().len(),
    {
        12
    }

    /// The language at position `i` of the display order.
    pub fn at(i: usize) -> (r: Language)
        requires
            i < spec_languages().len(),
        ensures
            r == spec_languages()[i as int],
    {
        match i {
            0 => Language::Rust,
            1 => Language::Python,
            2 => Language::Go,
            3 => Language::JavaScript,
            4 => Language::TypeScript,
            5 => Language::Java,
            6 => Language::CSharp,
            7 => Language::Cpp,
            8 => Language::Ruby,
            9 => Language::Zig,
            10 => Language::Haskell,
            _ => Language::Lua,
        }
    }

    /// Display name.
    pub open spec fn spec_label(self) -> Seq<char> {
        match self {
            Language::Rust => "Rust"@,
            Language::Python => "Python"@,
            Language::Go => "Go"@,
            Language::JavaScript => "JavaScript"@,
            Language::TypeScript => "TypeScript"@,
            Language::Java => "Java"@,
            Language::CSharp => "C#"@,
            Language::Cpp => "C/C++"@,
            Language::Ruby => "Ruby"@,
            Language::Zig => "Zig"@,
            Language::Haskell => "Haskell"@,
            Language::Lua => "Lua"@,
        }
    }

    /// Display name.
    pub fn label(&self) -> (r: &'static str)
        ensures
            r@ == self.spec_label(),
    {
        match self {
            Language::Rust => "Rust",
            Language::Python => "Python",
            Language::Go => "Go",
            Language::JavaScript => "JavaScript",
            Language::TypeScript => "TypeScript",
            Language::Java => "Java",
            Language::CSharp => "C#",
            Language::Cpp => "C/C++",
            Language::Ruby => "Ruby",
            Language::Zig => "Zig",
            Language::Haskell => "Haskell",
            Language::Lua => "Lua",
        }
    }
}

/// Databases offered by the Database step (`None` is "no database").
#[derive(Debug, Clone, Copy, PartialEq, Eq, Structural)]
pub enum Database {
    PostgreSQL,
    MySQL,
    SQLite,
    MongoDB,
    Redis,
    /// "None": no database.
    NoDatabase,
}

impl Database {
    /// Display name.
    pub open spec fn spec_label(self) -> Seq<char> {
        match self {
            Database::PostgreSQL => "PostgreSQL"@,
            Database::MySQL => "MySQL"@,
            Database::SQLite => "SQLite"@,
            Database::MongoDB => "MongoDB"@,
            Database::Redis => "Redis"@,
            Database::NoDatabase => "None"@,
        }
    }

    /// Display name.
    pub fn label(&self) -> (r: &'static str)
        ensures
            r@ == self.spec_label(),
    {
        match self {
            Database::PostgreSQL => "PostgreSQL",
            Database::MySQL => "MySQL",
            Database::SQLite => "SQLite",
            Database::MongoDB => "MongoDB",
            Database::Redis => "Redis",
            Database::NoDatabase => "None",
        }
    }
}

/// Every `Database`, in declaration order.
pub open spec fn spec_database_variants() -> Seq<Database> {
    seq![Database::PostgreSQL, Database::MySQL, Database::SQLite, Database::MongoDB, Database::Redis, Database::NoDatabase]
}

impl Database {
    /// Every value, in declaration order.
    pub fn variants() -> (r: Vec<Database>)
        ensures
            r@ == spec_database_variants(),
    {
        let r = vec![Database::PostgreSQL, Database::MySQL, Database::SQLite, Database::MongoDB, Database::Redis, Database::NoDatabase];
        assert(r@ =~= spec_database_variants());
        r
    }
}

/// How a server database is run.
#[derive(Debug, Clone, Copy, PartialEq, Eq, Structural)]
pub enum RunMode {
    Docker,
    Native,
    Managed,
}

impl RunMode {
    /// Display name.
    pub open spec fn spec_label(self) -> Seq<char> {
        match self {
            RunMode::Docker => "Docker"@,
            RunMode::Native => "Native"@,
            RunMode::Managed => "Managed"@,
        }
    }

    /// Display name.
    pub fn label(&self) -> (r: &'static str)
        ensures
            r@ == self.spec_label(),
    {
        match self {
            RunMode::Docker => "Docker",
            RunMode::Native => "Native",
            RunMode::Managed => "Managed",
        }
    }
}

/// Every `RunMode`, in declaration order.
pub open spec fn spec_runmode_variants() -> Seq<RunMode> {
    seq![RunMode::Docker, RunMode::Native, RunMode::Managed]
}

impl RunMode {
    /// Every value, in declaration order.
    pub fn variants() -> (r: Vec<RunMode>)
        ensures
            r@ == spec_runmode_variants(),
    {
        let r = vec![RunMode::Docker, RunMode::Native, RunMode::Managed];
        assert(r@ =~= spec_runmode_variants());
        r
    }
}

/// Continuous-integration providers.
#[derive(Debug, Clone, Copy, PartialEq, Eq, Structural)]
pub enum CiProvider {
    /// "None": no CI.
    NoCi,
    GitHubActions,
    GitLab,
    Woodpecker,
}

impl CiProvider {
    /// Display name.
    pub open spec fn spec_label(self) -> Seq<char> {
        match self {
            CiProvider::NoCi => "None"@,
            CiProvider::GitHubActions => "GitHub Actions"@,
            CiProvider::GitLab => "GitLab CI"@,
            CiProvider::Woodpecker => "Woodpecker"@,
        }
    }

    /// Display name.
    pub fn label(&self) -> (r: &'static str)
        ensures
            r@ == self.spec_label(),
    {
        match self {
            CiProvider::NoCi => "None",
            CiProvider::GitHubActions => "GitHub Actions",
            CiProvider::GitLab => "GitLab CI",
            CiProvider::Woodpecker => "Woodpecker",
        }
    }
}

/// Every `CiProvider`, in declaration order.
pub open spec fn spec_ciprovider_variants() -> Seq<CiProvider> {
    seq![CiProvider::NoCi, CiProvider::GitHubActions, CiProvider::GitLab, CiProvider::Woodpecker]
}

impl CiProvider {
    /// Every value, in declaration order.
    pub fn variants() -> (r: Vec<CiProvider>)
        ensures
            r@ == spec_ciprovider_variants(),
    {
        let r = vec![CiProvider::NoCi, CiProvider::GitHubActions, CiProvider::GitLab, CiProvider::Woodpecker];
        assert(r@ =~= spec_ciprovider_variants());
        r
    }
}

/// Pre-commit hook frameworks.
#[derive(Debug, Clone, Copy, PartialEq, Eq, Structural)]
pub enum PreCommitFramework {
    PreCommit,
    Lefthook,
    /// "None": no hooks.
    NoFramework,
}

impl PreCommitFramework {
    /// Display name.
    pub open spec fn spec_label(self) -> Seq<char> {
        match self {
            PreCommitFramework::PreCommit => "pre-commit"@,
            PreCommitFramework::Lefthook => "lefthook"@,
            PreCommitFramework::NoFramework => "None"@,
        }
    }

    /// Display name.
    pub fn label(&self) -> (r: &'static str)
        ensures
            r@ == self.spec_label(),
    {
        match self {
            PreCommitFramework::PreCommit => "pre-commit",
            PreCommitFramework::Lefthook => "lefthook",
            PreCommitFramework::NoFramework => "None",
        }
    }
}

/// Every `PreCommitFramework`, in declaration order.
pub open spec fn spec_precommitframework_variants() -> Seq<PreCommitFramework> {
    seq![PreCommitFramework::PreCommit, PreCommitFramework::Lefthook, PreCommitFramework::NoFramework]
}

impl PreCommitFramework {
    /// Every value, in declaration order.
    pub fn variants() -> (r: Vec<PreCommitFramework>)
        ensures
            r@ == spec_precommitframework_variants(),
    {
        let r = vec![PreCommitFramework::PreCommit, PreCommitFramework::Lefthook, PreCommitFramework::NoFramework];
        assert(r@ =~= spec_precommitframework_variants());
        r
    }
}

/// Version-control systems.
#[derive(Debug, Clone, Copy, PartialEq, Eq, Structural)]
pub enum Vcs {
    Git,
    Jujutsu,
    /// "Skip": no version control.
    NoVcs,
}

impl Vcs {
    /// Display name.
    pub open spec fn spec_label(self) -> Seq<char> {
        match self {
            Vcs::Git => "Git"@,
            Vcs::Jujutsu => "Jujutsu (jj)"@,
            Vcs::NoVcs => "Skip"@,
        }
    }

    /// Display name.
    pub fn label(&self) -> (r: &'static str)
        ensures
            r@ == self.spec_label(),
    {
        match self {
            Vcs::Git => "Git",
            Vcs::Jujutsu => "Jujutsu (jj)",
            Vcs::NoVcs => "Skip",
        }
    }
}

/// Every `Vcs`, in declaration order.
pub open spec fn spec_vcs_variants() -> Seq<Vcs> {
    seq![Vcs::Git, Vcs::Jujutsu, Vcs::NoVcs]
}

impl Vcs {
    /// Every value, in declaration order.
    pub fn variants() -> (r: Vec<Vcs>)
        ensures
            r@ == spec_vcs_variants(),
    {
        let r = vec![Vcs::Git, Vcs::Jujutsu, Vcs::NoVcs];
        assert(r@ =~= spec_vcs_variants());
        r
    }
}

/// Whether the wizard creates a new project or uses an existing directory.
#[derive(Debug, Clone, Copy, PartialEq, Eq, Structural)]
pub enum ProjectType {
    New,
    Existing,
}

impl ProjectType {
    /// Display name.
    pub open spec fn spec_label(self) -> Seq<char> {
        match self {
            ProjectType::New => "New"@,
            ProjectType::Existing => "Existing"@,
        }
    }

    /// Display name.
    pub fn label(&self) -> (r: &'static str)
        ensures
            r@ == self.spec_label(),
    {
        match self {
            ProjectType::New => "New",
            ProjectType::Existing => "Existing",
        }
    }
}

/// Every `ProjectType`, in declaration order.
pub open spec fn spec_projecttype_variants() -> Seq<ProjectType> {
    seq![ProjectType::New, ProjectType::Existing]
}

impl ProjectType {
    /// Every value, in declaration order.
    pub fn variants() -> (r: Vec<ProjectType>)
        ensures
            r@ == spec_projecttype_variants(),
    {
        let r = vec![ProjectType::New, ProjectType::Existing];
        assert(r@ =~= spec_projecttype_variants());
        r
    }
}

/// Hosting providers for git remotes.
#[derive(Debug, Clone, Copy, PartialEq, Eq, Structural)]
pub enum RemoteProvider {
    GitHub,
    Codeberg,
    GitLab,
    Bitbucket,
    SelfHosted,
}

impl RemoteProvider {
    /// Display name.
    pub open spec fn spec_label(self) -> Seq<char> {
        match self {
            RemoteProvider::GitHub => "GitHub"@,
            RemoteProvider::Codeberg => "Codeberg"@,
            RemoteProvider::GitLab => "GitLab"@,
            RemoteProvider::Bitbucket => "Bitbucket"@,
            RemoteProvider::SelfHosted => "Self-hosted"@,
        }
    }

    /// Display name.
    pub fn label(&self) -> (r: &'static str)
        ensures
            r@ == self.spec_label(),
    {
        match self {
            RemoteProvider::GitHub => "GitHub",
            RemoteProvider::Codeberg => "Codeberg",
            RemoteProvider::GitLab => "GitLab",
            RemoteProvider::Bitbucket => "Bitbucket",
            RemoteProvider::SelfHosted => "Self-hosted",
        }
    }

    /// The SSH location prefix a new remote of this provider starts with.
    pub open spec fn spec_url_prefix(self) -> Seq<char> {
        match self {
            RemoteProvider::GitHub => "git@github.com:"@,
            RemoteProvider::Codeberg => "git@codeberg.org:"@,
            RemoteProvider::GitLab => "git@gitlab.com:"@,
            RemoteProvider::Bitbucket => "git@bitbucket.org:"@,
            RemoteProvider::SelfHosted => ""@,
        }
    }

    /// The SSH location prefix a new remote of this provider starts with
    /// (empty for self-hosted servers).
    pub fn url_prefix(&self) -> (r: &'static str)
        ensures
            r@ == self.spec_url_prefix(),
    {
        match self {
            RemoteProvider::GitHub => "git@github.com:",
            RemoteProvider::Codeberg => "git@codeberg.org:",
            RemoteProvider::GitLab => "git@gitlab.com:",
            RemoteProvider::Bitbucket => "git@bitbucket.org:",
            RemoteProvider::SelfHosted => "",
        }
    }
}

/// Every `RemoteProvider`, in declaration order.
pub open spec fn spec_remoteprovider_variants() -> Seq<RemoteProvider> {
    seq![RemoteProvider::GitHub, RemoteProvider::Codeberg, RemoteProvider::GitLab, RemoteProvider::Bitbucket, RemoteProvider::SelfHosted]
}

impl RemoteProvider {
    /// Every value, in declaration order.
    pub fn variants() -> (r: Vec<RemoteProvider>)
        ensures
            r@ == spec_remoteprovider_variants(),
    {
        let r = vec![RemoteProvider::GitHub, RemoteProvider::Codeberg, RemoteProvider::GitLab, RemoteProvider::Bitbucket, RemoteProvider::SelfHosted];
        assert(r@ =~= spec_remoteprovider_variants());
        r
    }
}

/// Extra files the wizard can add.
#[derive(Debug, Clone, Copy, PartialEq, Eq, Structural)]
pub enum Extra {
    Gitignore,
    Readme,
    License,
}

impl Extra {
    /// Display name.
    pub open spec fn spec_label(self) -> Seq<char> {
        match self {
            Extra::Gitignore => ".gitignore"@,
            Extra::Readme => "README"@,
            Extra::License => "LICENSE"@,
        }
    }

    /// Display name.
    pub fn label(&self) -> (r: &'static str)
        ensures
            r@ == self.spec_label(),
    {
        match self {
            Extra::Gitignore => ".gitignore",
            Extra::Readme => "README",
            Extra::License => "LICENSE",
        }
    }
}

/// Every `Extra`, in declaration order.
pub open spec fn spec_extra_variants() -> Seq<Extra> {
    seq![Extra::Gitignore, Extra::Readme, Extra::License]
}

impl Extra {
    /// Every value, in declaration order.
    pub fn variants() -> (r: Vec<Extra>)
        ensures
            r@ == spec_extra_variants(),
    {
        let r = vec![Extra::Gitignore, Extra::Readme, Extra::License];
        assert(r@ =~= spec_extra_variants());
        r
    }
}

/// The tool ids of a language configuration, as character sequences.
pub open spec fn ids_view(ids: Seq<&'static str>) -> Seq<Seq<char>> {
    ids.map_values(|s: &'static str| s@)
}

/// Per-language choices: tools, common dependencies and free-text extras.
#[derive(Debug, Clone)]
pub struct LanguageConfig {
    pub language: Language,
    pub tools: Vec<&'static str>,
    pub common_deps: Vec<&'static str>,
    pub custom_deps: String,
}

/// The abstract value of a [`LanguageConfig`].
pub type LanguageConfigView = (Language, Seq<Seq<char>>, Seq<Seq<char>>, Seq<char>);

impl View for LanguageConfig {
    type V = LanguageConfigView;

    open spec fn view(&self) -> LanguageConfigView {
        (self.language, ids_view(self.tools@), ids_view(self.common_deps@), self.custom_deps@)
    }
}

/// A copy of a list of ids.
pub fn copy_ids(v: &Vec<&'static str>) -> (r: Vec<&'static str>)
    ensures
        r@ == v@,
{
    let mut r: Vec<&'static str> = Vec::new();
    let mut i: usize = 0;
    while i < v.len()
        invariant
            i <= v.len(),
            r@ == v@.subrange(0, i as int),
        decreases v.len() - i,
    {
        r.push(v[i]);
        i = i + 1;
        assert(r@ =~= v@.subrange(0, i as int));
    }
    assert(v@.subrange(0, v.len() as int) =~= v@);
    r
}

impl LanguageConfig {
    /// An empty configuration for `language`.
    pub fn new(language: Language) -> (r: LanguageConfig)
        ensures
            r@ == (language, Seq::<Seq<char>>::empty(), Seq::<Seq<char>>::empty(), Seq::<char>::empty()),
    {
        let r = LanguageConfig {
            language,
            tools: Vec::new(),
            common_deps: Vec::new(),
            custom_deps: String::new(),
        };
        assert(ids_view(r.tools@) =~= Seq::<Seq<char>>::empty());
        assert(ids_view(r.common_deps@) =~= Seq::<Seq<char>>::empty());
        r
    }

    /// A copy with the same abstract value.
    pub fn duplicate(&self) -> (r: LanguageConfig)
        ensures
            r@ == self@,
            r.tools@ == self.tools@,
            r.common_deps@ == self.common_deps@,
    {
        LanguageConfig {
            language: self.language,
            tools: copy_ids(&self.tools),
            common_deps: copy_ids(&self.common_deps),
            custom_deps: self.custom_deps.clone(),
        }
    }
}

/// The CI provider and pre-commit framework choices.
#[derive(Debug, Clone, Copy, PartialEq, Eq, Structural)]
pub struct WorkflowConfig {
    pub ci: Option<CiProvider>,
    pub pre_commit: Option<PreCommitFramework>,
}

impl Default for WorkflowConfig {
    fn default() -> (r: WorkflowConfig)
        ensures
            r.ci.is_none(),
            r.pre_commit.is_none(),
    {
        WorkflowConfig { ci: None, pre_commit: None }
    }
}

/// Configuration of one selected database.
#[derive(Debug, Clone)]
pub struct DatabaseConfig {
    pub database: Database,
    /// `Some(_)` only when the database supports a run mode (server databases).
    pub run_mode: Option<RunMode>,
    /// Toggled drivers, each paired with the language it is meant for.
    pub drivers: Vec<(Language, &'static str)>,
    /// Empty means "use the database's default port".
    pub port: String,
}

/// The drivers of a database configuration, ids as character sequences.
pub open spec fn drivers_view(d: Seq<(Language, &'static str)>) -> Seq<(Language, Seq<char>)> {
    d.map_values(|p: (Language, &'static str)| (p.0, p.1@))
}

/// The abstract value of a [`DatabaseConfig`].
pub type DatabaseConfigView = (Database, Option<RunMode>, Seq<(Language, Seq<char>)>, Seq<char>);

impl View for DatabaseConfig {
    type V = DatabaseConfigView;

    open spec fn view(&self) -> DatabaseConfigView {
        (self.database, self.run_mode, drivers_view(self.drivers@), self.port@)
    }
}

/// A copy of a list of drivers.
pub fn copy_drivers(v: &Vec<(Language, &'static str)>) -> (r: Vec<(Language, &'static str)>)
    ensures
        r@ == v@,
{
    let mut r: Vec<(Language, &'static str)> = Vec::new();
    let mut i: usize = 0;
    while i < v.len()
        invariant
            i <= v.len(),
            r@ == v@.subrange(0, i as int),
        decreases v.len() - i,
    {
        let (l, d) = v[i];
        r.push((l, d));
        i = i + 1;
        assert(r@ =~= v@.subrange(0, i as int));
    }
    assert(v@.subrange(0, v.len() as int) =~= v@);
    r
}

impl DatabaseConfig {
    /// A fresh configuration for `database`: run mode Docker when the database
    /// supports a run mode (none otherwise), no drivers, default port.
    pub fn default_for(database: Database, supports_run_mode: bool) -> (r: DatabaseConfig)
        ensures
            r.database == database,
            r.run_mode == (if supports_run_mode { Some(RunMode::Docker) } else { None::<RunMode> }),
            r.drivers@.len() == 0,
            r.port@.len() == 0,
    {
        DatabaseConfig {
            database,
            run_mode: if supports_run_mode { Some(RunMode::Docker) } else { None },
            drivers: Vec::new(),
            port: String::new(),
        }
    }

    /// A copy with the same fields.
    pub fn duplicate(&self) -> (r: DatabaseConfig)
        ensures
            r@ == self@,
            r.database == self.database,
            r.run_mode == self.run_mode,
            r.drivers@ == self.drivers@,
            r.port@ == self.port@,
    {
        DatabaseConfig {
            database: self.database,
            run_mode: self.run_mode,
            drivers: copy_drivers(&self.drivers),
            port: self.port.clone(),
        }
    }
}

/// One configured git remote.
#[derive(Debug, Clone)]
pub struct RemoteConfig {
    pub provider: RemoteProvider,
    pub name: String,
    pub location: String,
    pub fetch: bool,
    pub push: bool,
}

/// The abstract value of a [`RemoteConfig`].
pub type RemoteConfigView = (RemoteProvider, Seq<char>, Seq<char>, bool, bool);

impl View for RemoteConfig {
    type V = RemoteConfigView;

    open spec fn view(&self) -> RemoteConfigView {
        (self.provider, self.name@, self.location@, self.fetch, self.push)
    }
}

impl RemoteConfig {
    /// A copy with the same fields.
    pub fn duplicate(&self) -> (r: RemoteConfig)
        ensures
            r@ == self@,
    {
        RemoteConfig {
            provider: self.provider,
            name: self.name.clone(),
            location: self.location.clone(),
            fetch: self.fetch,
            push: self.push,
        }
    }
}

/// Views of a list of values.
pub open spec fn views<T: View>(s: Seq<T>) -> Seq<T::V> {
    s.map_values(|x: T| x@)
}

/// Everything the wizard collects.
#[derive(Debug)]
pub struct ProjectConfig {
    pub project_type: Option<ProjectType>,
    pub project_name: String,
    pub project_location: String,
    pub vcs: Option<Vcs>,
    pub default_branch: String,
    pub jj_colocate: bool,
    pub language_configs: Vec<LanguageConfig>,
    pub workflows: WorkflowConfig,
    pub database_configs: Vec<DatabaseConfig>,
    pub remotes: Vec<RemoteConfig>,
    pub extras: Vec<Extra>,
}

impl ProjectConfig {
    /// The state a fresh one starts in (see `Default`).
    pub open spec fn is_fresh(self) -> bool {
        &&& self.project_type.is_none()
        &&& self.project_name@.len() == 0
        &&& self.project_location@.len() == 0
        &&& self.vcs.is_none()
        &&& self.default_branch@.len() == 0
        &&& !self.jj_colocate
        &&& self.language_configs@.len() == 0
        &&& self.workflows.ci.is_none()
        &&& self.workflows.pre_commit.is_none()
        &&& self.database_configs@.len() == 0
        &&& self.remotes@.len() == 0
        &&& self.extras@.len() == 0
    }
}

impl Default for ProjectConfig {
    fn default() -> (r: ProjectConfig)
        ensures
            r.is_fresh(),
    {
        ProjectConfig {
            project_type: None,
            project_name: String::new(),
            project_location: String::new(),
            vcs: None,
            default_branch: String::new(),
            jj_colocate: false,
            language_configs: Vec::new(),
            workflows: WorkflowConfig { ci: None, pre_commit: None },
            database_configs: Vec::new(),
            remotes: Vec::new(),
            extras: Vec::new(),
        }
    }
}

} // verus!
