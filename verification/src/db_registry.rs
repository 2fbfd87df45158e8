//! Per-database catalog: default port, whether a run mode is asked for, and
//! drivers grouped by language.

use vstd::prelude::*;

use crate::config::{views, Database, Language};
use crate::text::str_eq;

verus! {

/// Static description of a database choice.
#[derive(Debug)]
pub struct DatabaseSpec {
    /// Default port shown when the port input is left empty; `None` for
    /// embedded databases (SQLite) and for "no database".
    pub default_port: Option<u16>,
    /// Whether the user is asked how the database runs (Docker / Native /
    /// Managed); false for SQLite and for "no database".
    pub supports_run_mode: bool,
    /// Driver catalogs, one group per language.
    pub driver_groups: Vec<DriverGroup>,
}

/// Drivers of one database for one language.
#[derive(Debug)]
pub struct DriverGroup {
    pub language: Language,
    pub drivers: Vec<Driver>,
}

/// A database driver; `id` is the package name in its ecosystem.
#[derive(Debug, Clone, Copy)]
pub struct Driver {
    pub id: &'static str,
    pub label: &'static str,
}

/// The abstract value of a [`Driver`]: id and label.
pub type DriverView = (Seq<char>, Seq<char>);

impl View for Driver {
    type V = DriverView;

    open spec fn view(&self) -> DriverView {
        (self.id@, self.label@)
    }
}

/// The abstract value of a [`DriverGroup`]: language and drivers.
pub type GroupView = (Language, Seq<DriverView>);

impl View for DriverGroup {
    type V = GroupView;

    open spec fn view(&self) -> GroupView {
        (self.language, views(self.drivers@))
    }
}

/// The abstract value of a [`DatabaseSpec`]: default port, run-mode support
/// and driver groups.
pub type DatabaseSpecView = (Option<u16>, bool, Seq<GroupView>);

impl View for DatabaseSpec {
    type V = DatabaseSpecView;

    open spec fn view(&self) -> DatabaseSpecView {
        (self.default_port, self.supports_run_mode, views(self.driver_groups@))
    }
}

// --- The catalog, as data ---

pub open spec fn spec_postgresql_groups() -> Seq<GroupView> {
    seq![
        (Language::Python, seq![
            ("psycopg"@, "psycopg"@),
            ("psycopg2"@, "psycopg2"@),
            ("asyncpg"@, "asyncpg"@),
            ("sqlalchemy"@, "SQLAlchemy"@),
        ]),
        (Language::Rust, seq![
            ("sqlx"@, "sqlx"@),
            ("diesel"@, "diesel"@),
            ("tokio-postgres"@, "tokio-postgres"@),
            ("postgres"@, "postgres"@),
        ]),
    ]
}

pub open spec fn spec_mysql_groups() -> Seq<GroupView> {
    seq![
        (Language::Python, seq![
            ("mysqlclient"@, "mysqlclient"@),
            ("pymysql"@, "PyMySQL"@),
            ("mysql-connector-python"@, "mysql-connector-python"@),
            ("sqlalchemy"@, "SQLAlchemy"@),
        ]),
        (Language::Rust, seq![
            ("sqlx"@, "sqlx"@),
            ("diesel"@, "diesel"@),
            ("mysql_async"@, "mysql_async"@),
            ("mysql"@, "mysql"@),
        ]),
    ]
}

pub open spec fn spec_sqlite_groups() -> Seq<GroupView> {
    seq![
        (Language::Python, seq![
            ("sqlite3"@, "sqlite3 (stdlib)"@),
            ("sqlalchemy"@, "SQLAlchemy"@),
        ]),
        (Language::Rust, seq![
            ("rusqlite"@, "rusqlite"@),
            ("sqlx"@, "sqlx"@),
            ("diesel"@, "diesel"@),
        ]),
    ]
}

pub open spec fn spec_mongodb_groups() -> Seq<GroupView> {
    seq![
        (Language::Python, seq![
            ("pymongo"@, "pymongo"@),
            ("motor"@, "motor"@),
            ("beanie"@, "beanie"@),
        ]),
        (Language::Rust, seq![("mongodb"@, "mongodb"@)]),
    ]
}

pub open spec fn spec_redis_groups() -> Seq<GroupView> {
    seq![
        (Language::Python, seq![("redis"@, "redis"@), ("hiredis"@, "hiredis"@)]),
        (Language::Rust, seq![("redis"@, "redis"@), ("fred"@, "fred"@)]),
    ]
}

/// The catalog entry of a database.
pub open spec fn spec_database_spec(database: Database) -> DatabaseSpecView {
    match database {
        Database::PostgreSQL => (Some(5432u16), true, spec_postgresql_groups()),
        Database::MySQL => (Some(3306u16), true, spec_mysql_groups()),
        Database::SQLite => (None, false, spec_sqlite_groups()),
        Database::MongoDB => (Some(27017u16), true, spec_mongodb_groups()),
        Database::Redis => (Some(6379u16), true, spec_redis_groups()),
        Database::NoDatabase => (None, false, Seq::empty()),
    }
}

fn d(id: &'static str, label: &'static str) -> (r: Driver)
    ensures
        r@ == (id@, label@),
{
    Driver { id, label }
}

fn group(language: Language, drivers: Vec<Driver>) -> (r: DriverGroup)
    ensures
        r@ == (language, views(drivers@)),
{
    DriverGroup { language, drivers }
}

fn postgresql_groups() -> (r: Vec<DriverGroup>)
    ensures
        views(r@) == spec_postgresql_groups(),
{
    let py = vec![d("psycopg", "psycopg"), d("psycopg2", "psycopg2"), d("asyncpg", "asyncpg"), d("sqlalchemy", "SQLAlchemy")];
    assert(views(py@) =~= spec_postgresql_groups()[0].1);
    let rs = vec![d("sqlx", "sqlx"), d("diesel", "diesel"), d("tokio-postgres", "tokio-postgres"), d("postgres", "postgres")];
    assert(views(rs@) =~= spec_postgresql_groups()[1].1);
    let r = vec![group(Language::Python, py), group(Language::Rust, rs)];
    assert(views(r@) =~= spec_postgresql_groups());
    r
}

fn mysql_groups() -> (r: Vec<DriverGroup>)
    ensures
        views(r@) == spec_mysql_groups(),
{
    let py = vec![d("mysqlclient", "mysqlclient"), d("pymysql", "PyMySQL"), d("mysql-connector-python", "mysql-connector-python"), d("sqlalchemy", "SQLAlchemy")];
    assert(views(py@) =~= spec_mysql_groups()[0].1);
    let rs = vec![d("sqlx", "sqlx"), d("diesel", "diesel"), d("mysql_async", "mysql_async"), d("mysql", "mysql")];
    assert(views(rs@) =~= spec_mysql_groups()[1].1);
    let r = vec![group(Language::Python, py), group(Language::Rust, rs)];
    assert(views(r@) =~= spec_mysql_groups());
    r
}

fn sqlite_groups() -> (r: Vec<DriverGroup>)
    ensures
        views(r@) == spec_sqlite_groups(),
{
    let py = vec![d("sqlite3", "sqlite3 (stdlib)"), d("sqlalchemy", "SQLAlchemy")];
    assert(views(py@) =~= spec_sqlite_groups()[0].1);
    let rs = vec![d("rusqlite", "rusqlite"), d("sqlx", "sqlx"), d("diesel", "diesel")];
    assert(views(rs@) =~= spec_sqlite_groups()[1].1);
    let r = vec![group(Language::Python, py), group(Language::Rust, rs)];
    assert(views(r@) =~= spec_sqlite_groups());
    r
}

fn mongodb_groups() -> (r: Vec<DriverGroup>)
    ensures
        views(r@) == spec_mongodb_groups(),
{
    let py = vec![d("pymongo", "pymongo"), d("motor", "motor"), d("beanie", "beanie")];
    assert(views(py@) =~= spec_mongodb_groups()[0].1);
    let rs = vec![d("mongodb", "mongodb")];
    assert(views(rs@) =~= spec_mongodb_groups()[1].1);
    let r = vec![group(Language::Python, py), group(Language::Rust, rs)];
    assert(views(r@) =~= spec_mongodb_groups());
    r
}

fn redis_groups() -> (r: Vec<DriverGroup>)
    ensures
        views(r@) == spec_redis_groups(),
{
    let py = vec![d("redis", "redis"), d("hiredis", "hiredis")];
    assert(views(py@) =~= spec_redis_groups()[0].1);
    let rs = vec![d("redis", "redis"), d("fred", "fred")];
    assert(views(rs@) =~= spec_redis_groups()[1].1);
    let r = vec![group(Language::Python, py), group(Language::Rust, rs)];
    assert(views(r@) =~= spec_redis_groups());
    r
}

/// The catalog entry of `database`.
pub fn spec_for(database: Database) -> (r: DatabaseSpec)
    ensures
        r@ == spec_database_spec(database),
{
    match database {
        Database::PostgreSQL => DatabaseSpec {
            default_port: Some(5432),
            supports_run_mode: true,
            driver_groups: postgresql_groups(),
        },
        Database::MySQL => DatabaseSpec {
            default_port: Some(3306),
            supports_run_mode: true,
            driver_groups: mysql_groups(),
        },
        Database::SQLite => DatabaseSpec {
            default_port: None,
            supports_run_mode: false,
            driver_groups: sqlite_groups(),
        },
        Database::MongoDB => DatabaseSpec {
            default_port: Some(27017),
            supports_run_mode: true,
            driver_groups: mongodb_groups(),
        },
        Database::Redis => DatabaseSpec {
            default_port: Some(6379),
            supports_run_mode: true,
            driver_groups: redis_groups(),
        },
        Database::NoDatabase => {
            let r = DatabaseSpec { default_port: None, supports_run_mode: false, driver_groups: Vec::new() };
            assert(views(r.driver_groups@) =~= Seq::<GroupView>::empty());
            r
        },
    }
}

// --- Lookup by (language, id) ---

/// The first driver of `drivers` whose id is `id`.
pub open spec fn find_driver(drivers: Seq<DriverView>, id: Seq<char>) -> Option<DriverView>
    decreases drivers.len(),
{
    if drivers.len() == 0 {
        None
    } else if drivers[0].0 == id {
        Some(drivers[0])
    } else {
        find_driver(drivers.drop_first(), id)
    }
}

/// The drivers of the groups for `language`, group by group.
pub open spec fn language_drivers(groups: Seq<GroupView>, language: Language) -> Seq<DriverView>
    decreases groups.len(),
{
    if groups.len() == 0 {
        Seq::empty()
    } else if groups.last().0 == language {
        language_drivers(groups.drop_last(), language) + groups.last().1
    } else {
        language_drivers(groups.drop_last(), language)
    }
}

/// Every driver for `language`, walking PostgreSQL, MySQL, SQLite, MongoDB
/// and Redis in that order.
pub open spec fn spec_all_drivers(language: Language) -> Seq<DriverView> {
    language_drivers(spec_postgresql_groups(), language) + language_drivers(spec_mysql_groups(), language)
        + language_drivers(spec_sqlite_groups(), language) + language_drivers(spec_mongodb_groups(), language)
        + language_drivers(spec_redis_groups(), language)
}

/// Looking up an id in a concatenation looks in the first part first.
pub proof fn lemma_find_driver_append(a: Seq<DriverView>, b: Seq<DriverView>, id: Seq<char>)
    ensures
        find_driver(a + b, id) == (if find_driver(a, id) is Some {
            find_driver(a, id)
        } else {
            find_driver(b, id)
        }),
    decreases a.len(),
{
    if a.len() == 0 {
        assert(a + b =~= b);
    } else {
        assert((a + b).drop_first() =~= a.drop_first() + b);
        lemma_find_driver_append(a.drop_first(), b, id);
    }
}

fn find_in_drivers(drivers: &Vec<Driver>, id: &str) -> (r: Option<Driver>)
    ensures
        match r {
            Some(t) => find_driver(views(drivers@), id@) == Some(t@),
            None => find_driver(views(drivers@), id@) is None,
        },
{
    let mut i: usize = 0;
    assert(views(drivers@).skip(0) =~= views(drivers@));
    while i < drivers.len()
        invariant
            i <= drivers.len(),
            find_driver(views(drivers@), id@) == find_driver(views(drivers@).skip(i as int), id@),
        decreases drivers.len() - i,
    {
        assert(views(drivers@).skip(i as int)[0] == drivers@[i as int]@);
        if str_eq(drivers[i].id, id) {
            return Some(drivers[i]);
        }
        assert(views(drivers@).skip(i as int).drop_first() =~= views(drivers@).skip(i + 1));
        i = i + 1;
    }
    None
}

proof fn lemma_language_drivers_take(groups: Seq<GroupView>, language: Language, n: int, i: int, id: Seq<char>)
    requires
        0 <= i < n <= groups.len(),
        find_driver(language_drivers(groups.take(i + 1), language), id) is Some,
    ensures
        find_driver(language_drivers(groups.take(n), language), id) == find_driver(
            language_drivers(groups.take(i + 1), language),
            id,
        ),
    decreases n - i,
{
    if n == i + 1 {
    } else {
        assert(groups.take(n).drop_last() =~= groups.take(n - 1));
        lemma_language_drivers_take(groups, language, n - 1, i, id);
        lemma_find_driver_append(
            language_drivers(groups.take(n - 1), language),
            groups.take(n).last().1,
            id,
        );
    }
}

fn find_in_groups(groups: &Vec<DriverGroup>, language: Language, id: &str) -> (r: Option<Driver>)
    ensures
        match r {
            Some(t) => find_driver(language_drivers(views(groups@), language), id@) == Some(t@),
            None => find_driver(language_drivers(views(groups@), language), id@) is None,
        },
{
    let ghost gs = views(groups@);
    let mut i: usize = 0;
    assert(gs.take(0) =~= Seq::<GroupView>::empty());
    while i < groups.len()
        invariant
            i <= groups.len(),
            gs == views(groups@),
            find_driver(language_drivers(gs.take(i as int), language), id@) is None,
        decreases groups.len() - i,
    {
        let ghost prefix = gs.take(i as int);
        assert(gs.take(i + 1).drop_last() =~= prefix);
        assert(gs.take(i + 1).last() == groups@[i as int]@);
        if groups[i].language == language {
            proof {
                lemma_find_driver_append(language_drivers(prefix, language), gs[i as int].1, id@);
            }
            match find_in_drivers(&groups[i].drivers, id) {
                Some(t) => {
                    proof {
                        assert(gs.take(groups.len() as int) =~= gs);
                        if i + 1 < groups.len() {
                            lemma_language_drivers_take(gs, language, groups.len() as int, i as int, id@);
                        }
                    }
                    return Some(t);
                },
                None => {},
            }
        }
        i = i + 1;
    }
    assert(gs.take(groups.len() as int) =~= gs);
    None
}

/// Looks a driver up by language and id, walking every database's catalog
/// (so the same pair resolves whichever database is being configured);
/// `None` for an unknown pair.
pub fn driver_by_id(language: Language, id: &str) -> (r: Option<Driver>)
    ensures
        match r {
            Some(t) => find_driver(spec_all_drivers(language), id@) == Some(t@),
            None => find_driver(spec_all_drivers(language), id@) is None,
        },
{
    let ghost a = language_drivers(spec_postgresql_groups(), language);
    let ghost b = language_drivers(spec_mysql_groups(), language);
    let ghost c = language_drivers(spec_sqlite_groups(), language);
    let ghost e = language_drivers(spec_mongodb_groups(), language);
    let ghost f = language_drivers(spec_redis_groups(), language);
    proof {
        lemma_find_driver_append(a + b + c + e, f, id@);
        lemma_find_driver_append(a + b + c, e, id@);
        lemma_find_driver_append(a + b, c, id@);
        lemma_find_driver_append(a, b, id@);
    }
    if let Some(t) = find_in_groups(&spec_for(Database::PostgreSQL).driver_groups, language, id) {
        return Some(t);
    }
    if let Some(t) = find_in_groups(&spec_for(Database::MySQL).driver_groups, language, id) {
        return Some(t);
    }
    if let Some(t) = find_in_groups(&spec_for(Database::SQLite).driver_groups, language, id) {
        return Some(t);
    }
    if let Some(t) = find_in_groups(&spec_for(Database::MongoDB).driver_groups, language, id) {
        return Some(t);
    }
    find_in_groups(&spec_for(Database::Redis).driver_groups, language, id)
}

/// Every catalog group is for Python or Rust.
pub proof fn lemma_groups_only_python_and_rust(database: Database, i: int)
    requires
        0 <= i < spec_database_spec(database).2.len(),
    ensures
        spec_database_spec(database).2[i].0 == Language::Python || spec_database_spec(database).2[i].0
            == Language::Rust,
{
}

/// A database has a default port exactly when it supports a run mode.
pub proof fn lemma_port_iff_run_mode(database: Database)
    ensures
        spec_database_spec(database).0 is Some <==> spec_database_spec(database).1,
{
}

} // verus!
