use std::collections::HashSet;

use cinderbox::config::Language;
use cinderbox::registry::{spec_for, tool_by_id};

#[test]
fn spec_for_python_returns_populated_spec() {
    let s = spec_for(Language::Python);
    assert!(!s.categories.is_empty());
    assert!(!s.common_deps.is_empty());
}

#[test]
fn spec_for_rust_returns_populated_spec() {
    let s = spec_for(Language::Rust);
    assert!(!s.categories.is_empty());
    assert!(!s.common_deps.is_empty());
}

#[test]
fn spec_for_go_returns_empty_spec() {
    let s = spec_for(Language::Go);
    assert!(s.categories.is_empty());
    assert!(s.common_deps.is_empty());
}

#[test]
fn spec_for_every_other_language_is_empty() {
    for lang in Language::variants() {
        if matches!(lang, Language::Python | Language::Rust) {
            continue;
        }
        let s = spec_for(lang);
        assert!(
            s.categories.is_empty() && s.common_deps.is_empty(),
            "expected {} to have an empty spec",
            lang.label(),
        );
    }
}

#[test]
fn all_python_tool_ids_are_unique() {
    let mut seen = HashSet::new();
    for cat in spec_for(Language::Python).categories {
        for tool in cat.tools {
            assert!(seen.insert(tool.id), "duplicate tool id: {}", tool.id);
        }
    }
}

#[test]
fn all_rust_tool_ids_are_unique() {
    let mut seen = HashSet::new();
    for cat in spec_for(Language::Rust).categories {
        for tool in cat.tools {
            assert!(seen.insert(tool.id), "duplicate tool id: {}", tool.id);
        }
    }
}

#[test]
fn tool_by_id_finds_known_tool() {
    let t = tool_by_id("ruff").expect("ruff must be in the registry");
    assert_eq!(t.label, "Ruff");
    assert!(t.default_pre_commit);
}

#[test]
fn tool_by_id_returns_none_for_unknown() {
    assert!(tool_by_id("nonexistent-tool-xyz").is_none());
}

#[test]
fn python_has_all_expected_categories() {
    let s = spec_for(Language::Python);
    let names: Vec<_> = s.categories.iter().map(|c| c.name).collect();
    assert!(names.contains(&"Linters"));
    assert!(names.contains(&"Type checkers"));
    assert!(names.contains(&"Security"));
    assert!(names.contains(&"Tests"));
}

#[test]
fn tool_by_id_finds_rust_tools_after_python_ones() {
    let clippy = tool_by_id("clippy").expect("clippy listed");
    assert_eq!(clippy.label, "clippy");
    assert!(clippy.default_pre_commit && clippy.default_ci);
    let pytest = tool_by_id("pytest").expect("pytest listed");
    assert!(!pytest.default_pre_commit);
    assert!(pytest.default_ci);
}

#[test]
fn rust_catalog_has_expected_shape() {
    let s = spec_for(Language::Rust);
    assert_eq!(s.categories.len(), 6);
    assert_eq!(s.common_deps.len(), 7);
    assert_eq!(s.common_deps[0].id, "tokio");
}
