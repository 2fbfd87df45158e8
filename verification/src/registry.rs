//! Per-language catalog of tools (grouped in categories) and common
//! dependencies offered by the Languages step.

use vstd::prelude::*;

use crate::config::{views, Language};
use crate::text::str_eq;

verus! {

/// A tool the user can enable for a language.
#[derive(Debug, Clone, Copy)]
pub struct Tool {
    pub id: &'static str,
    pub label: &'static str,
    /// Whether the tool runs as a pre-commit hook by default.
    pub default_pre_commit: bool,
    /// Whether the tool runs in CI by default.
    pub default_ci: bool,
}

/// The abstract value of a [`Tool`]: id, label, pre-commit default, CI default.
pub type ToolView = (Seq<char>, Seq<char>, bool, bool);

impl View for Tool {
    type V = ToolView;

    open spec fn view(&self) -> ToolView {
        (self.id@, self.label@, self.default_pre_commit, self.default_ci)
    }
}

/// A named group of tools.
#[derive(Debug)]
pub struct ToolCategory {
    pub name: &'static str,
    pub tools: Vec<Tool>,
}

/// The abstract value of a [`ToolCategory`]: name and tools.
pub type CategoryView = (Seq<char>, Seq<ToolView>);

impl View for ToolCategory {
    type V = CategoryView;

    open spec fn view(&self) -> CategoryView {
        (self.name@, views(self.tools@))
    }
}

/// A frequently used dependency the user can tick.
#[derive(Debug, Clone, Copy)]
pub struct CommonDep {
    pub id: &'static str,
    pub label: &'static str,
}

/// The abstract value of a [`CommonDep`]: id and label.
pub type DepView = (Seq<char>, Seq<char>);

impl View for CommonDep {
    type V = DepView;

    open spec fn view(&self) -> DepView {
        (self.id@, self.label@)
    }
}

/// Everything the catalog holds for one language.
#[derive(Debug)]
pub struct LanguageSpec {
    pub categories: Vec<ToolCategory>,
    pub common_deps: Vec<CommonDep>,
}

/// The abstract value of a [`LanguageSpec`]: categories and common deps.
pub type LanguageSpecView = (Seq<CategoryView>, Seq<DepView>);

impl View for LanguageSpec {
    type V = LanguageSpecView;

    open spec fn view(&self) -> LanguageSpecView {
        (views(self.categories@), views(self.common_deps@))
    }
}

// --- The catalog, as data ---

pub open spec fn spec_python_categories() -> Seq<CategoryView> {
    seq![
        ("Linters"@, seq![
            ("ruff"@, "Ruff"@, true, true),
            ("black"@, "Black"@, true, false),
            ("pylint"@, "Pylint"@, false, true),
        ]),
        ("Type checkers"@, seq![
            ("pyright"@, "Pyright"@, true, true),
            ("mypy"@, "Mypy"@, true, true),
        ]),
        ("Security"@, seq![("bandit"@, "Bandit"@, true, true)]),
        ("Dead code"@, seq![("vulture"@, "Vulture"@, false, true)]),
        ("Complexity"@, seq![
            ("radon"@, "Radon"@, false, true),
            ("xenon"@, "Xenon"@, true, true),
        ]),
        ("Tests"@, seq![("pytest"@, "pytest"@, false, true)]),
        ("Docs"@, seq![("mkdocs"@, "MkDocs"@, false, false)]),
    ]
}

pub open spec fn spec_python_deps() -> Seq<DepView> {
    seq![
        ("fastapi"@, "FastAPI"@),
        ("flask"@, "Flask"@),
        ("django"@, "Django"@),
        ("pydantic"@, "Pydantic"@),
        ("requests"@, "requests"@),
        ("httpx"@, "httpx"@),
        ("sqlalchemy"@, "SQLAlchemy"@),
        ("numpy"@, "NumPy"@),
        ("pandas"@, "pandas"@),
    ]
}

pub open spec fn spec_rust_categories() -> Seq<CategoryView> {
    seq![
        ("Linters"@, seq![("clippy"@, "clippy"@, true, true)]),
        ("Format"@, seq![("rustfmt"@, "rustfmt"@, true, true)]),
        ("Security"@, seq![
            ("cargo-audit"@, "cargo-audit"@, false, true),
            ("cargo-deny"@, "cargo-deny"@, false, true),
        ]),
        ("Tests"@, seq![("cargo-nextest"@, "cargo-nextest"@, false, true)]),
        ("Coverage"@, seq![("cargo-tarpaulin"@, "cargo-tarpaulin"@, false, true)]),
        ("Docs"@, seq![("mdbook"@, "mdBook"@, false, false)]),
    ]
}

pub open spec fn spec_rust_deps() -> Seq<DepView> {
    seq![
        ("tokio"@, "tokio"@),
        ("serde"@, "serde"@),
        ("serde_json"@, "serde_json"@),
        ("anyhow"@, "anyhow"@),
        ("thiserror"@, "thiserror"@),
        ("clap"@, "clap"@),
        ("tracing"@, "tracing"@),
    ]
}

/// The catalog entry of a language: Python and Rust have tools and
/// dependencies; every other language has an empty entry.
pub open spec fn spec_language_spec(language: Language) -> LanguageSpecView {
    match language {
        Language::Python => (spec_python_categories(), spec_python_deps()),
        Language::Rust => (spec_rust_categories(), spec_rust_deps()),
        _ => (Seq::empty(), Seq::empty()),
    }
}

fn tool(id: &'static str, label: &'static str, default_pre_commit: bool, default_ci: bool) -> (r: Tool)
    ensures
        r@ == (id@, label@, default_pre_commit, default_ci),
{
    Tool { id, label, default_pre_commit, default_ci }
}

fn python_categories() -> (r: Vec<ToolCategory>)
    ensures
        views(r@) == spec_python_categories(),
{
    let r = vec![
        ToolCategory { name: "Linters", tools: vec![
            tool("ruff", "Ruff", true, true),
            tool("black", "Black", true, false),
            tool("pylint", "Pylint", false, true),
        ] },
        ToolCategory { name: "Type checkers", tools: vec![
            tool("pyright", "Pyright", true, true),
            tool("mypy", "Mypy", true, true),
        ] },
        ToolCategory { name: "Security", tools: vec![tool("bandit", "Bandit", true, true)] },
        ToolCategory { name: "Dead code", tools: vec![tool("vulture", "Vulture", false, true)] },
        ToolCategory { name: "Complexity", tools: vec![
            tool("radon", "Radon", false, true),
            tool("xenon", "Xenon", true, true),
        ] },
        ToolCategory { name: "Tests", tools: vec![tool("pytest", "pytest", false, true)] },
        ToolCategory { name: "Docs", tools: vec![tool("mkdocs", "MkDocs", false, false)] },
    ];
    assert(views(r@[0].tools@) =~= spec_python_categories()[0].1);
    assert(views(r@[1].tools@) =~= spec_python_categories()[1].1);
    assert(views(r@[2].tools@) =~= spec_python_categories()[2].1);
    assert(views(r@[3].tools@) =~= spec_python_categories()[3].1);
    assert(views(r@[4].tools@) =~= spec_python_categories()[4].1);
    assert(views(r@[5].tools@) =~= spec_python_categories()[5].1);
    assert(views(r@[6].tools@) =~= spec_python_categories()[6].1);
    assert(views(r@) =~= spec_python_categories());
    r
}


fn python_deps() -> (r: Vec<CommonDep>)
    ensures
        views(r@) == spec_python_deps(),
{
    let r = vec![
        CommonDep { id: "fastapi", label: "FastAPI" },
        CommonDep { id: "flask", label: "Flask" },
        CommonDep { id: "django", label: "Django" },
        CommonDep { id: "pydantic", label: "Pydantic" },
        CommonDep { id: "requests", label: "requests" },
        CommonDep { id: "httpx", label: "httpx" },
        CommonDep { id: "sqlalchemy", label: "SQLAlchemy" },
        CommonDep { id: "numpy", label: "NumPy" },
        CommonDep { id: "pandas", label: "pandas" },
    ];
    assert(views(r@) =~= spec_python_deps());
    r
}

fn rust_categories() -> (r: Vec<ToolCategory>)
    ensures
        views(r@) == spec_rust_categories(),
{
    let r = vec![
        ToolCategory { name: "Linters", tools: vec![tool("clippy", "clippy", true, true)] },
        ToolCategory { name: "Format", tools: vec![tool("rustfmt", "rustfmt", true, true)] },
        ToolCategory { name: "Security", tools: vec![
            tool("cargo-audit", "cargo-audit", false, true),
            tool("cargo-deny", "cargo-deny", false, true),
        ] },
        ToolCategory { name: "Tests", tools: vec![tool("cargo-nextest", "cargo-nextest", false, true)] },
        ToolCategory { name: "Coverage", tools: vec![
            tool("cargo-tarpaulin", "cargo-tarpaulin", false, true),
        ] },
        ToolCategory { name: "Docs", tools: vec![tool("mdbook", "mdBook", false, false)] },
    ];
    assert(views(r@[0].tools@) =~= spec_rust_categories()[0].1);
    assert(views(r@[1].tools@) =~= spec_rust_categories()[1].1);
    assert(views(r@[2].tools@) =~= spec_rust_categories()[2].1);
    assert(views(r@[3].tools@) =~= spec_rust_categories()[3].1);
    assert(views(r@[4].tools@) =~= spec_rust_categories()[4].1);
    assert(views(r@[5].tools@) =~= spec_rust_categories()[5].1);
    assert(views(r@) =~= spec_rust_categories());
    r
}

fn rust_deps() -> (r: Vec<CommonDep>)
    ensures
        views(r@) == spec_rust_deps(),
{
    let r = vec![
        CommonDep { id: "tokio", label: "tokio" },
        CommonDep { id: "serde", label: "serde" },
        CommonDep { id: "serde_json", label: "serde_json" },
        CommonDep { id: "anyhow", label: "anyhow" },
        CommonDep { id: "thiserror", label: "thiserror" },
        CommonDep { id: "clap", label: "clap" },
        CommonDep { id: "tracing", label: "tracing" },
    ];
    assert(views(r@) =~= spec_rust_deps());
    r
}

/// The catalog entry of `language`.
pub fn spec_for(language: Language) -> (r: LanguageSpec)
    ensures
        r@ == spec_language_spec(language),
{
    match language {
        Language::Python => LanguageSpec { categories: python_categories(), common_deps: python_deps() },
        Language::Rust => LanguageSpec { categories: rust_categories(), common_deps: rust_deps() },
        _ => {
            let r = LanguageSpec { categories: Vec::new(), common_deps: Vec::new() };
            assert(views(r.categories@) =~= Seq::<CategoryView>::empty());
            assert(views(r.common_deps@) =~= Seq::<DepView>::empty());
            r
        },
    }
}

/// A language is supported when its catalog entry has any tool category or
/// common dependency.
pub open spec fn spec_is_supported(language: Language) -> bool {
    spec_language_spec(language).0.len() > 0 || spec_language_spec(language).1.len() > 0
}

/// Exactly Python and Rust are supported.
pub proof fn lemma_supported_languages(language: Language)
    ensures
        spec_is_supported(language) <==> (language == Language::Python || language
            == Language::Rust),
{
}

// --- Lookup by id ---

/// The first tool of `tools` whose id is `id`.
pub open spec fn find_tool(tools: Seq<ToolView>, id: Seq<char>) -> Option<ToolView>
    decreases tools.len(),
{
    if tools.len() == 0 {
        None
    } else if tools[0].0 == id {
        Some(tools[0])
    } else {
        find_tool(tools.drop_first(), id)
    }
}

/// All tools of the given categories, category by category.
pub open spec fn flatten_tools(cats: Seq<CategoryView>) -> Seq<ToolView>
    decreases cats.len(),
{
    if cats.len() == 0 {
        Seq::empty()
    } else {
        flatten_tools(cats.drop_last()) + cats.last().1
    }
}

/// Every tool of the catalog: Python's, then Rust's.
pub open spec fn spec_all_tools() -> Seq<ToolView> {
    flatten_tools(spec_python_categories()) + flatten_tools(spec_rust_categories())
}

/// Looking up an id in a concatenation looks in the first part first.
pub proof fn lemma_find_tool_append(a: Seq<ToolView>, b: Seq<ToolView>, id: Seq<char>)
    ensures
        find_tool(a + b, id) == (if find_tool(a, id) is Some {
            find_tool(a, id)
        } else {
            find_tool(b, id)
        }),
    decreases a.len(),
{
    if a.len() == 0 {
        assert(a + b =~= b);
    } else {
        assert((a + b).drop_first() =~= a.drop_first() + b);
        lemma_find_tool_append(a.drop_first(), b, id);
    }
}

fn find_in_tools(tools: &Vec<Tool>, id: &str) -> (r: Option<Tool>)
    ensures
        match r {
            Some(t) => find_tool(views(tools@), id@) == Some(t@),
            None => find_tool(views(tools@), id@) is None,
        },
{
    let mut i: usize = 0;
    assert(views(tools@).skip(0) =~= views(tools@));
    while i < tools.len()
        invariant
            i <= tools.len(),
            find_tool(views(tools@), id@) == find_tool(views(tools@).skip(i as int), id@),
        decreases tools.len() - i,
    {
        assert(views(tools@).skip(i as int)[0] == tools@[i as int]@);
        if str_eq(tools[i].id, id) {
            return Some(tools[i]);
        }
        assert(views(tools@).skip(i as int).drop_first() =~= views(tools@).skip(i + 1));
        i = i + 1;
    }
    None
}

fn find_in_categories(cats: &Vec<ToolCategory>, id: &str) -> (r: Option<Tool>)
    ensures
        match r {
            Some(t) => find_tool(flatten_tools(views(cats@)), id@) == Some(t@),
            None => find_tool(flatten_tools(views(cats@)), id@) is None,
        },
{
    let mut i: usize = 0;
    assert(views(cats@).take(0) =~= Seq::<CategoryView>::empty());
    while i < cats.len()
        invariant
            i <= cats.len(),
            find_tool(flatten_tools(views(cats@).take(i as int)), id@) is None,
        decreases cats.len() - i,
    {
        let ghost prefix = views(cats@).take(i as int);
        assert(views(cats@).take(i + 1).drop_last() =~= prefix);
        proof {
            lemma_find_tool_append(flatten_tools(prefix), views(cats@)[i as int].1, id@);
        }
        match find_in_tools(&cats[i].tools, id) {
            Some(t) => {
                proof {
                    lemma_flatten_prefix_find(views(cats@), i as int, id@);
                }
                return Some(t);
            },
            None => {},
        }
        i = i + 1;
    }
    assert(views(cats@).take(cats.len() as int) =~= views(cats@));
    None
}

proof fn lemma_flatten_prefix_find(cats: Seq<CategoryView>, i: int, id: Seq<char>)
    requires
        0 <= i < cats.len(),
        find_tool(flatten_tools(cats.take(i + 1)), id) is Some,
    ensures
        find_tool(flatten_tools(cats), id) == find_tool(flatten_tools(cats.take(i + 1)), id),
    decreases cats.len() - i,
{
    if i + 1 == cats.len() {
        assert(cats.take(i + 1) =~= cats);
    } else {
        let n = cats.len() - 1;
        assert(cats.drop_last() == cats.take(n));
        assert(cats.take(n).take(i + 1) =~= cats.take(i + 1));
        lemma_flatten_prefix_find_take(cats, n, i, id);
        lemma_find_tool_append(flatten_tools(cats.drop_last()), cats.last().1, id);
    }
}

proof fn lemma_flatten_prefix_find_take(cats: Seq<CategoryView>, n: int, i: int, id: Seq<char>)
    requires
        0 <= i < n <= cats.len(),
        find_tool(flatten_tools(cats.take(i + 1)), id) is Some,
    ensures
        find_tool(flatten_tools(cats.take(n)), id) == find_tool(flatten_tools(cats.take(i + 1)), id),
    decreases n - i,
{
    if n == i + 1 {
    } else {
        assert(cats.take(n).drop_last() =~= cats.take(n - 1));
        lemma_flatten_prefix_find_take(cats, n - 1, i, id);
        lemma_find_tool_append(flatten_tools(cats.take(n - 1)), cats.take(n).last().1, id);
    }
}

/// Looks a tool up by id across the catalog (Python's tools first, then
/// Rust's); `None` when no tool has that id.
pub fn tool_by_id(id: &str) -> (r: Option<Tool>)
    ensures
        match r {
            Some(t) => find_tool(spec_all_tools(), id@) == Some(t@),
            None => find_tool(spec_all_tools(), id@) is None,
        },
{
    proof {
        lemma_find_tool_append(
            flatten_tools(spec_python_categories()),
            flatten_tools(spec_rust_categories()),
            id@,
        );
    }
    let py = python_categories();
    match find_in_categories(&py, id) {
        Some(t) => Some(t),
        None => find_in_categories(&rust_categories(), id),
    }
}

} // verus!
