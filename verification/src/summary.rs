//! The configuration summary shown beside the wizard and printed when it is
//! confirmed: one line per setting, with a dash for what is not set.

use vstd::prelude::*;

use crate::config::{
    views, Database, DatabaseConfig, DatabaseConfigView, Language, LanguageConfig,
    LanguageConfigView, ProjectConfig, RemoteConfig, Vcs, WorkflowConfig,
};
use crate::db_registry::{driver_by_id, find_driver, spec_all_drivers, spec_database_spec, spec_for};
use crate::text::{
    comma_entries, concat, decimal, extend_strings, join, joined, nonempty_trimmed, split_commas,
    u16_to_string,
};

verus! {

/// Shown for a setting that is not chosen yet.
pub const DASH: &'static str = "—";

/// The view of a list of strings.
pub open spec fn lines_view(v: Seq<String>) -> Seq<Seq<char>> {
    v.map_values(|s: String| s@)
}

/// `s`, or a dash when it is empty.
pub open spec fn or_dash(s: Seq<char>) -> Seq<char> {
    if s.len() == 0 {
        DASH@
    } else {
        s
    }
}

/// `label: a, b, c`, or `label: <none>` for no items.
pub open spec fn config_list_line(label: Seq<char>, items: Seq<Seq<char>>, none: Seq<char>) -> Seq<char> {
    if items.len() == 0 {
        label + ": "@ + none
    } else {
        label + ": "@ + joined(items, ", "@)
    }
}

/// The project type, name, location and version-control lines.
pub open spec fn header_lines(c: ProjectConfig) -> Seq<Seq<char>> {
    seq![
        "Project Type: "@ + match c.project_type {
            Some(t) => t.spec_label(),
            None => DASH@,
        },
        "  Name: "@ + or_dash(c.project_name@),
        "  Location: "@ + or_dash(c.project_location@),
        "VCS: "@ + match c.vcs {
            Some(v) => v.spec_label(),
            None => DASH@,
        },
    ]
}

/// The branch, or "(default)" when none was typed.
pub open spec fn branch_or_default(b: Seq<char>) -> Seq<char> {
    if b.len() == 0 {
        "(default)"@
    } else {
        b
    }
}

/// The version-control details: git shows its default branch; Jujutsu its
/// mode and, when colocated, its default branch.
pub open spec fn vcs_detail_lines(vcs: Option<Vcs>, branch: Seq<char>, colocate: bool) -> Seq<Seq<char>> {
    match vcs {
        Some(Vcs::Git) => seq!["  Default branch: "@ + branch_or_default(branch)],
        Some(Vcs::Jujutsu) => seq![
            "  Mode: "@ + if colocate {
                "Colocated with git"@
            } else {
                "Native"@
            },
        ] + if colocate {
            seq!["  Default branch: "@ + branch_or_default(branch)]
        } else {
            Seq::empty()
        },
        _ => Seq::empty(),
    }
}

/// A language's dependencies: the common ones, then the custom ones (the
/// comma-separated entries, trimmed, empty ones dropped).
pub open spec fn language_deps(lc: LanguageConfigView) -> Seq<Seq<char>> {
    lc.2 + nonempty_trimmed(split_commas(lc.3))
}

/// One language's block: its name, its tools when it has any, its
/// dependencies when it has any.
pub open spec fn language_block(lc: LanguageConfigView) -> Seq<Seq<char>> {
    seq!["  "@ + lc.0.spec_label() + ":"@] + (if lc.1.len() > 0 {
        seq!["    Tools: "@ + joined(lc.1, ", "@)]
    } else {
        Seq::empty()
    }) + (if language_deps(lc).len() > 0 {
        seq!["    Dependencies: "@ + joined(language_deps(lc), ", "@)]
    } else {
        Seq::empty()
    })
}

/// The blocks of the configured languages, in order.
pub open spec fn language_blocks(lcs: Seq<LanguageConfigView>) -> Seq<Seq<char>>
    decreases lcs.len(),
{
    if lcs.len() == 0 {
        Seq::empty()
    } else {
        language_blocks(lcs.drop_last()) + language_block(lcs.last())
    }
}

/// The languages section: a dash when none is configured.
pub open spec fn language_lines(lcs: Seq<LanguageConfigView>) -> Seq<Seq<char>> {
    if lcs.len() == 0 {
        seq!["Languages: "@ + DASH@]
    } else {
        seq!["Languages:"@] + language_blocks(lcs)
    }
}

/// The workflows section.
pub open spec fn workflow_lines(w: WorkflowConfig) -> Seq<Seq<char>> {
    seq![
        "Workflows:"@,
        "  CI: "@ + match w.ci {
            Some(c) => c.spec_label(),
            None => DASH@,
        },
        "  Pre-commit: "@ + match w.pre_commit {
            Some(p) => p.spec_label(),
            None => DASH@,
        },
    ]
}

/// The labels of the known drivers for `lang`, in order.
pub open spec fn drivers_for(drivers: Seq<(Language, Seq<char>)>, lang: Language) -> Seq<Seq<char>>
    decreases drivers.len(),
{
    if drivers.len() == 0 {
        Seq::empty()
    } else {
        let prev = drivers_for(drivers.drop_last(), lang);
        if drivers.last().0 == lang {
            match find_driver(spec_all_drivers(lang), drivers.last().1) {
                Some(d) => prev.push(d.1),
                None => prev,
            }
        } else {
            prev
        }
    }
}

/// One line per language of `langs` (in that order) that has known drivers.
pub open spec fn driver_lang_lines(drivers: Seq<(Language, Seq<char>)>, langs: Seq<Language>) -> Seq<
    Seq<char>,
>
    decreases langs.len(),
{
    if langs.len() == 0 {
        Seq::empty()
    } else {
        let prev = driver_lang_lines(drivers, langs.drop_last());
        let labels = drivers_for(drivers, langs.last());
        if labels.len() > 0 {
            prev.push("    "@ + langs.last().spec_label() + ": "@ + joined(labels, ", "@))
        } else {
            prev
        }
    }
}

/// One database's block: its name; for a real database also its run mode,
/// its port (the default one, marked, when none was typed) when it has a
/// default port, and its drivers grouped by language in display order.
pub open spec fn database_block(dc: DatabaseConfigView) -> Seq<Seq<char>> {
    if dc.0 == Database::NoDatabase {
        seq!["Database: None"@]
    } else {
        seq!["Database: "@ + dc.0.spec_label()] + (match dc.1 {
            Some(rm) => seq!["  Run mode: "@ + rm.spec_label()],
            None => Seq::empty(),
        }) + (match spec_database_spec(dc.0).0 {
            Some(p) => seq![
                "  Port: "@ + if dc.3.len() == 0 {
                    decimal(p as nat) + " (default)"@
                } else {
                    dc.3
                },
            ],
            None => Seq::empty(),
        }) + (if dc.2.len() > 0 {
            seq!["  Drivers:"@] + driver_lang_lines(dc.2, crate::config::spec_languages())
        } else {
            Seq::empty()
        })
    }
}

/// The blocks of the configured databases, in order.
pub open spec fn database_blocks(dcs: Seq<DatabaseConfigView>) -> Seq<Seq<char>>
    decreases dcs.len(),
{
    if dcs.len() == 0 {
        Seq::empty()
    } else {
        database_blocks(dcs.drop_last()) + database_block(dcs.last())
    }
}

/// The database section: a dash when none is configured.
pub open spec fn database_lines(dcs: Seq<DatabaseConfigView>) -> Seq<Seq<char>> {
    if dcs.len() == 0 {
        seq!["Database: "@ + DASH@]
    } else {
        database_blocks(dcs)
    }
}

/// The whole summary: header, version-control details, languages,
/// workflows, databases, then the remotes (by provider) and the extras.
pub open spec fn spec_summary(c: ProjectConfig) -> Seq<Seq<char>> {
    header_lines(c) + vcs_detail_lines(c.vcs, c.default_branch@, c.jj_colocate) + language_lines(
        views(c.language_configs@),
    ) + workflow_lines(c.workflows) + database_lines(views(c.database_configs@)) + seq![
        config_list_line(
            "Remotes"@,
            c.remotes@.map_values(|r: RemoteConfig| r.provider.spec_label()),
            DASH@,
        ),
        config_list_line(
            "Extras"@,
            c.extras@.map_values(|e: crate::config::Extra| e.spec_label()),
            DASH@,
        ),
    ]
}

/// Appends one line.
fn push_line(v: &mut Vec<String>, s: String)
    ensures
        lines_view(final(v)@) == lines_view(old(v)@).push(s@),
{
    let ghost prev = v@;
    v.push(s);
    assert(lines_view(v@) =~= lines_view(prev).push(s@));
}

/// `label: a, b, c`, or `label: <none>` for no items (see
/// [`config_list_line`]).
pub fn format_config_list(label: &str, items: &Vec<String>, none: &str) -> (r: String)
    ensures
        r@ == config_list_line(label@, lines_view(items@), none@),
{
    let mut line = concat(label, ": ");
    if items.len() == 0 {
        crate::text::append(&mut line, none);
    } else {
        let j = join(items, ", ");
        crate::text::append(&mut line, j.as_str());
    }
    line
}

fn text_or_dash(s: &String) -> (r: String)
    ensures
        r@ == or_dash(s@),
{
    if s.as_str().unicode_len() == 0 {
        String::from_str(DASH)
    } else {
        s.clone()
    }
}

fn header(c: &ProjectConfig) -> (r: Vec<String>)
    ensures
        lines_view(r@) == header_lines(*c),
{
    let mut out: Vec<String> = Vec::new();
    let pt = match c.project_type {
        Some(t) => t.label(),
        None => DASH,
    };
    push_line(&mut out, concat("Project Type: ", pt));
    let name = text_or_dash(&c.project_name);
    push_line(&mut out, concat("  Name: ", name.as_str()));
    let loc = text_or_dash(&c.project_location);
    push_line(&mut out, concat("  Location: ", loc.as_str()));
    let vcs = match c.vcs {
        Some(v) => v.label(),
        None => DASH,
    };
    push_line(&mut out, concat("VCS: ", vcs));
    assert(lines_view(out@) =~= header_lines(*c));
    out
}

fn branch_text(b: &String) -> (r: String)
    ensures
        r@ == branch_or_default(b@),
{
    if b.as_str().unicode_len() == 0 {
        proof {
            reveal_strlit("(default)");
        }
        String::from_str("(default)")
    } else {
        b.clone()
    }
}

fn vcs_details(c: &ProjectConfig) -> (r: Vec<String>)
    ensures
        lines_view(r@) == vcs_detail_lines(c.vcs, c.default_branch@, c.jj_colocate),
{
    let mut out: Vec<String> = Vec::new();
    match c.vcs {
        Some(Vcs::Git) => {
            let b = branch_text(&c.default_branch);
            push_line(&mut out, concat("  Default branch: ", b.as_str()));
        },
        Some(Vcs::Jujutsu) => {
            let mode = if c.jj_colocate {
                "Colocated with git"
            } else {
                "Native"
            };
            push_line(&mut out, concat("  Mode: ", mode));
            if c.jj_colocate {
                let b = branch_text(&c.default_branch);
                push_line(&mut out, concat("  Default branch: ", b.as_str()));
            }
        },
        _ => {},
    }
    assert(lines_view(out@) =~= vcs_detail_lines(c.vcs, c.default_branch@, c.jj_colocate));
    out
}

fn language_block_lines(lc: &LanguageConfig) -> (r: Vec<String>)
    ensures
        lines_view(r@) == language_block(lc@),
{
    let mut out: Vec<String> = Vec::new();
    let mut head = concat("  ", lc.language.label());
    crate::text::append(&mut head, ":");
    push_line(&mut out, head);
    if lc.tools.len() > 0 {
        let tools = crate::text::join_strs(&lc.tools, ", ");
        push_line(&mut out, concat("    Tools: ", tools.as_str()));
    }
    let mut deps: Vec<String> = Vec::new();
    let mut i: usize = 0;
    while i < lc.common_deps.len()
        invariant
            i <= lc.common_deps.len(),
            lines_view(deps@) == lc@.2.take(i as int),
        decreases lc.common_deps.len() - i,
    {
        push_line(&mut deps, String::from_str(lc.common_deps[i]));
        i = i + 1;
        assert(lines_view(deps@) =~= lc@.2.take(i as int));
    }
    assert(lc@.2.take(i as int) =~= lc@.2);
    let custom = comma_entries(lc.custom_deps.as_str());
    extend_strings(&mut deps, &custom);
    if deps.len() > 0 {
        let d = join(&deps, ", ");
        push_line(&mut out, concat("    Dependencies: ", d.as_str()));
    }
    assert(lines_view(out@) =~= language_block(lc@));
    out
}

fn languages_section(lcs: &Vec<LanguageConfig>) -> (r: Vec<String>)
    ensures
        lines_view(r@) == language_lines(views(lcs@)),
{
    let mut out: Vec<String> = Vec::new();
    if lcs.len() == 0 {
        push_line(&mut out, concat("Languages: ", DASH));
        assert(lines_view(out@) =~= language_lines(views(lcs@)));
        return out;
    }
    proof {
        reveal_strlit("Languages:");
    }
    push_line(&mut out, String::from_str("Languages:"));
    let ghost head = lines_view(out@);
    let ghost ls = views(lcs@);
    let mut i: usize = 0;
    assert(ls.take(0) =~= Seq::<LanguageConfigView>::empty());
    assert(head + language_blocks(ls.take(0)) =~= head);
    while i < lcs.len()
        invariant
            i <= lcs.len(),
            ls == views(lcs@),
            lines_view(out@) == head + language_blocks(ls.take(i as int)),
        decreases lcs.len() - i,
    {
        let block = language_block_lines(&lcs[i]);
        extend_strings(&mut out, &block);
        assert(ls.take(i + 1).drop_last() =~= ls.take(i as int));
        i = i + 1;
    }
    assert(ls.take(i as int) =~= ls);
    assert(lines_view(out@) =~= language_lines(views(lcs@)));
    out
}

fn workflows_section(w: &WorkflowConfig) -> (r: Vec<String>)
    ensures
        lines_view(r@) == workflow_lines(*w),
{
    let mut out: Vec<String> = Vec::new();
    proof {
        reveal_strlit("Workflows:");
    }
    push_line(&mut out, String::from_str("Workflows:"));
    let ci = match w.ci {
        Some(c) => c.label(),
        None => DASH,
    };
    push_line(&mut out, concat("  CI: ", ci));
    let pre = match w.pre_commit {
        Some(p) => p.label(),
        None => DASH,
    };
    push_line(&mut out, concat("  Pre-commit: ", pre));
    assert(lines_view(out@) =~= workflow_lines(*w));
    out
}

fn driver_labels_for(drivers: &Vec<(Language, &'static str)>, lang: Language) -> (r: Vec<String>)
    ensures
        lines_view(r@) == drivers_for(crate::config::drivers_view(drivers@), lang),
{
    let ghost d = crate::config::drivers_view(drivers@);
    let mut out: Vec<String> = Vec::new();
    let mut i: usize = 0;
    while i < drivers.len()
        invariant
            i <= drivers.len(),
            d == crate::config::drivers_view(drivers@),
            lines_view(out@) == drivers_for(d.take(i as int), lang),
        decreases drivers.len() - i,
    {
        let (l, id) = drivers[i];
        assert(d.take(i + 1).drop_last() =~= d.take(i as int));
        assert(d.take(i + 1).last() == (l, id@));
        if l == lang {
            match driver_by_id(lang, id) {
                Some(found) => {
                    push_line(&mut out, String::from_str(found.label));
                },
                None => {},
            }
        }
        i = i + 1;
    }
    assert(d.take(i as int) =~= d);
    out
}

fn database_block_lines(dc: &DatabaseConfig) -> (r: Vec<String>)
    ensures
        lines_view(r@) == database_block(dc@),
{
    let mut out: Vec<String> = Vec::new();
    if dc.database == Database::NoDatabase {
        proof {
            reveal_strlit("Database: None");
        }
        push_line(&mut out, String::from_str("Database: None"));
        assert(lines_view(out@) =~= database_block(dc@));
        return out;
    }
    push_line(&mut out, concat("Database: ", dc.database.label()));
    if let Some(rm) = dc.run_mode {
        push_line(&mut out, concat("  Run mode: ", rm.label()));
    }
    let spec = spec_for(dc.database);
    if let Some(default_port) = spec.default_port {
        let shown = if dc.port.as_str().unicode_len() == 0 {
            let mut p = u16_to_string(default_port);
            crate::text::append(&mut p, " (default)");
            p
        } else {
            dc.port.clone()
        };
        push_line(&mut out, concat("  Port: ", shown.as_str()));
    }
    if dc.drivers.len() > 0 {
        proof {
            reveal_strlit("  Drivers:");
        }
        push_line(&mut out, String::from_str("  Drivers:"));
        let langs = Language::variants();
        let ghost head = lines_view(out@);
        let mut k: usize = 0;
        assert(langs@.take(0) =~= Seq::<Language>::empty());
        assert(head + driver_lang_lines(dc@.2, langs@.take(0)) =~= head);
        while k < langs.len()
            invariant
                k <= langs.len(),
                langs@ == crate::config::spec_languages(),
                lines_view(out@) == head + driver_lang_lines(dc@.2, langs@.take(k as int)),
            decreases langs.len() - k,
        {
            let lang = langs[k];
            let labels = driver_labels_for(&dc.drivers, lang);
            assert(langs@.take(k + 1).drop_last() =~= langs@.take(k as int));
            if labels.len() > 0 {
                let mut line = concat("    ", lang.label());
                crate::text::append(&mut line, ": ");
                let j = join(&labels, ", ");
                crate::text::append(&mut line, j.as_str());
                push_line(&mut out, line);
            }
            k = k + 1;
        }
        assert(langs@.take(k as int) =~= crate::config::spec_languages());
    }
    assert(lines_view(out@) =~= database_block(dc@));
    out
}

fn databases_section(dcs: &Vec<DatabaseConfig>) -> (r: Vec<String>)
    ensures
        lines_view(r@) == database_lines(views(dcs@)),
{
    let mut out: Vec<String> = Vec::new();
    if dcs.len() == 0 {
        push_line(&mut out, concat("Database: ", DASH));
        assert(lines_view(out@) =~= database_lines(views(dcs@)));
        return out;
    }
    let ghost ds = views(dcs@);
    let mut i: usize = 0;
    assert(ds.take(0) =~= Seq::<DatabaseConfigView>::empty());
    while i < dcs.len()
        invariant
            i <= dcs.len(),
            ds == views(dcs@),
            lines_view(out@) == database_blocks(ds.take(i as int)),
        decreases dcs.len() - i,
    {
        let block = database_block_lines(&dcs[i]);
        extend_strings(&mut out, &block);
        assert(ds.take(i + 1).drop_last() =~= ds.take(i as int));
        i = i + 1;
    }
    assert(ds.take(i as int) =~= ds);
    out
}

/// The summary of a configuration (see [`spec_summary`]).
pub fn get_summary(c: &ProjectConfig) -> (r: Vec<String>)
    ensures
        lines_view(r@) == spec_summary(*c),
{
    let mut lines = header(c);
    let more = vcs_details(c);
    extend_strings(&mut lines, &more);
    let more = languages_section(&c.language_configs);
    extend_strings(&mut lines, &more);
    let more = workflows_section(&c.workflows);
    extend_strings(&mut lines, &more);
    let more = databases_section(&c.database_configs);
    extend_strings(&mut lines, &more);
    let mut remotes: Vec<String> = Vec::new();
    let mut i: usize = 0;
    while i < c.remotes.len()
        invariant
            i <= c.remotes.len(),
            lines_view(remotes@) == c.remotes@.map_values(|r: RemoteConfig| r.provider.spec_label()).take(
                i as int,
            ),
        decreases c.remotes.len() - i,
    {
        push_line(&mut remotes, String::from_str(c.remotes[i].provider.label()));
        i = i + 1;
        assert(lines_view(remotes@) =~= c.remotes@.map_values(
            |r: RemoteConfig| r.provider.spec_label(),
        ).take(i as int));
    }
    assert(c.remotes@.map_values(|r: RemoteConfig| r.provider.spec_label()).take(i as int)
        =~= c.remotes@.map_values(|r: RemoteConfig| r.provider.spec_label()));
    push_line(&mut lines, format_config_list("Remotes", &remotes, DASH));
    let mut extras: Vec<String> = Vec::new();
    let mut k: usize = 0;
    while k < c.extras.len()
        invariant
            k <= c.extras.len(),
            lines_view(extras@) == c.extras@.map_values(|e: crate::config::Extra| e.spec_label()).take(
                k as int,
            ),
        decreases c.extras.len() - k,
    {
        push_line(&mut extras, String::from_str(c.extras[k].label()));
        k = k + 1;
        assert(lines_view(extras@) =~= c.extras@.map_values(
            |e: crate::config::Extra| e.spec_label(),
        ).take(k as int));
    }
    assert(c.extras@.map_values(|e: crate::config::Extra| e.spec_label()).take(k as int)
        =~= c.extras@.map_values(|e: crate::config::Extra| e.spec_label()));
    push_line(&mut lines, format_config_list("Extras", &extras, DASH));
    assert(lines_view(lines@) =~= spec_summary(*c));
    lines
}

/// The catalog label of the driver `id` for `lang` (meaningful when the
/// catalog knows it).
pub open spec fn catalog_label(lang: Language, id: Seq<char>) -> Seq<char> {
    (find_driver(spec_all_drivers(lang), id)->0).1
}

/// Whether the catalog has a driver `id` for `lang`.
pub open spec fn known_driver(lang: Language, id: Seq<char>) -> bool {
    find_driver(spec_all_drivers(lang), id) is Some
}

/// The drivers the summary lists for a language are named by their catalog
/// labels, not by the stored ids: every stored pair of that language that
/// the catalog knows contributes its driver's label, and every name listed
/// is the label of such a stored pair.
pub proof fn lemma_drivers_for_labels(drivers: Seq<(Language, Seq<char>)>, lang: Language)
    ensures
        forall|j: int|
            0 <= j < drivers.len() && drivers[j].0 == lang && known_driver(lang, #[trigger] drivers[j].1)
                ==> drivers_for(drivers, lang).contains(catalog_label(lang, drivers[j].1)),
        forall|k: int|
            0 <= k < drivers_for(drivers, lang).len() ==> exists|j: int|
                0 <= j < drivers.len() && drivers[j].0 == lang && known_driver(lang, drivers[j].1)
                    && #[trigger] drivers_for(drivers, lang)[k] == catalog_label(lang, drivers[j].1),
    decreases drivers.len(),
{
    if drivers.len() > 0 {
        let p = drivers.drop_last();
        lemma_drivers_for_labels(p, lang);
        let fp = drivers_for(p, lang);
        let f = drivers_for(drivers, lang);
        let last = drivers.last();
        let grows = last.0 == lang && known_driver(lang, last.1);
        if grows {
            assert(f == fp.push(catalog_label(lang, last.1)));
        } else {
            assert(f == fp);
        }
        assert forall|j: int|
            0 <= j < drivers.len() && drivers[j].0 == lang && known_driver(lang, #[trigger] drivers[j].1)
                implies f.contains(catalog_label(lang, drivers[j].1)) by {
            if j < p.len() {
                assert(p[j] == drivers[j]);
                assert(known_driver(lang, p[j].1));
                assert(fp.contains(catalog_label(lang, p[j].1)));
                let w = choose|w: int| 0 <= w < fp.len() && fp[w] == catalog_label(lang, p[j].1);
                assert(f[w] == fp[w]);
            } else {
                assert(drivers[j] == last);
                assert(f[fp.len() as int] == catalog_label(lang, last.1));
            }
        }
        assert forall|k: int| 0 <= k < f.len() implies exists|j: int|
            0 <= j < drivers.len() && drivers[j].0 == lang && known_driver(lang, drivers[j].1)
                && #[trigger] f[k] == catalog_label(lang, drivers[j].1) by {
            if k < fp.len() {
                assert(f[k] == fp[k]);
                let j = choose|j: int|
                    0 <= j < p.len() && p[j].0 == lang && known_driver(lang, p[j].1) && fp[k]
                        == catalog_label(lang, p[j].1);
                assert(drivers[j] == p[j]);
            } else {
                assert(f[k] == catalog_label(lang, last.1));
                assert(drivers[drivers.len() - 1] == last);
            }
        }
    }
}

/// Every language is in the display order.
proof fn lemma_language_listed(l: Language)
    ensures
        crate::config::spec_languages().contains(l),
{
    let ls = crate::config::spec_languages();
    let i: int = match l {
        Language::Rust => 0,
        Language::Python => 1,
        Language::Go => 2,
        Language::JavaScript => 3,
        Language::TypeScript => 4,
        Language::Java => 5,
        Language::CSharp => 6,
        Language::Cpp => 7,
        Language::Ruby => 8,
        Language::Zig => 9,
        Language::Haskell => 10,
        Language::Lua => 11,
    };
    assert(ls[i] == l);
}

/// A language of `langs` with listed drivers gets its line.
proof fn lemma_driver_lang_line(drivers: Seq<(Language, Seq<char>)>, langs: Seq<Language>, l: Language)
    requires
        langs.contains(l),
        drivers_for(drivers, l).len() > 0,
    ensures
        driver_lang_lines(drivers, langs).contains(
            "    "@ + l.spec_label() + ": "@ + joined(drivers_for(drivers, l), ", "@),
        ),
    decreases langs.len(),
{
    let prev = driver_lang_lines(drivers, langs.drop_last());
    let all = driver_lang_lines(drivers, langs);
    let line = "    "@ + l.spec_label() + ": "@ + joined(drivers_for(drivers, l), ", "@);
    if langs.last() == l {
        assert(all == prev.push(line));
        assert(all[prev.len() as int] == line);
    } else {
        let w = choose|w: int| 0 <= w < langs.len() && langs[w] == l;
        assert(langs.drop_last()[w] == l);
        lemma_driver_lang_line(drivers, langs.drop_last(), l);
        let v = choose|v: int| 0 <= v < prev.len() && prev[v] == line;
        assert(all[v] == prev[v]);
    }
}

/// In a real database's summary block, every stored driver that the
/// catalog knows is shown by its catalog label, on the line of its
/// language.
pub proof fn lemma_summary_shows_driver_labels(dc: DatabaseConfigView, j: int)
    requires
        dc.0 != Database::NoDatabase,
        0 <= j < dc.2.len(),
        known_driver(dc.2[j].0, dc.2[j].1),
    ensures
        database_block(dc).contains(
            "    "@ + dc.2[j].0.spec_label() + ": "@ + joined(drivers_for(dc.2, dc.2[j].0), ", "@),
        ),
        drivers_for(dc.2, dc.2[j].0).contains(catalog_label(dc.2[j].0, dc.2[j].1)),
{
    let l = dc.2[j].0;
    lemma_drivers_for_labels(dc.2, l);
    assert(drivers_for(dc.2, l).contains(catalog_label(l, dc.2[j].1)));
    lemma_language_listed(l);
    lemma_driver_lang_line(dc.2, crate::config::spec_languages(), l);
    let line = "    "@ + l.spec_label() + ": "@ + joined(drivers_for(dc.2, l), ", "@);
    let lines = driver_lang_lines(dc.2, crate::config::spec_languages());
    let v = choose|v: int| 0 <= v < lines.len() && lines[v] == line;
    let head = seq!["Database: "@ + dc.0.spec_label()] + (match dc.1 {
        Some(rm) => seq!["  Run mode: "@ + rm.spec_label()],
        None => Seq::<Seq<char>>::empty(),
    }) + (match spec_database_spec(dc.0).0 {
        Some(p) => seq![
            "  Port: "@ + if dc.3.len() == 0 {
                decimal(p as nat) + " (default)"@
            } else {
                dc.3
            },
        ],
        None => Seq::<Seq<char>>::empty(),
    });
    let tail = seq!["  Drivers:"@] + lines;
    assert(database_block(dc) == head + tail);
    assert(tail[v + 1] == line);
    assert((head + tail)[head.len() + v + 1] == line);
}

} // verus!
