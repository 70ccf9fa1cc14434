use dbmigrator::changelog::Changelog;
use dbmigrator::migrator::{find_agg_log, update_agg_log, Config, Migrator, MigratorError};
use dbmigrator::order::order_recipes;
use dbmigrator::recipe::{RecipeError, RecipeKind, RecipeScript};
use dbmigrator::statements::{apply_steps, ApplyStep};
use dbmigrator::version::VersionComparator;

fn recipe(version: &str, name: &str, sql: &str, kind: RecipeKind) -> RecipeScript {
    RecipeScript::new(version.to_string(), name.to_string(), sql.to_string(), Some(kind)).unwrap()
}

fn log(log_id: i32, version: &str, kind: &str, checksum: Option<&str>) -> Changelog {
    Changelog::new(
        log_id,
        version.to_string(),
        Some(format!("n{}", log_id)),
        kind.to_string(),
        checksum.map(|c| c.to_string()),
        None,
        None,
        None,
        None,
    )
}

fn recipes() -> Vec<RecipeScript> {
    vec![
        recipe("002", "second", "SELECT 2;", RecipeKind::Upgrade),
        recipe("000", "baseline", "CREATE TABLE a();", RecipeKind::Baseline),
        recipe("001", "first", "SELECT 1;", RecipeKind::Upgrade),
    ]
}

fn config() -> Config {
    let mut config = Config::default();
    config.apply_by = Some("tester".to_string());
    config
}

fn migrator(config: Config, logs: Vec<Changelog>) -> Migrator {
    let mut m = Migrator::new(config, VersionComparator::Simple);
    m.set_recipes(recipes()).unwrap();
    let last = logs.iter().map(|l| l.log_id()).max().unwrap_or(0);
    m.accept_last_log_id(Ok(last)).unwrap();
    m.load_changelog(logs);
    m
}

fn checksum_of(m: &Migrator, version: &str) -> String {
    m.recipes()
        .iter()
        .find(|r| r.version() == version && r.is_upgrade() || r.version() == version && r.is_baseline())
        .unwrap()
        .checksum()
        .to_string()
}

#[test]
fn effective_log_table_name_defaults() {
    let mut c = Config::default();
    assert_eq!(c.effective_log_table_name(), "dbmigrator_log");
    c.log_table_name = Some("my_log".to_string());
    assert_eq!(c.effective_log_table_name(), "my_log");
}

#[test]
fn recipes_are_ordered_by_version_then_kind() {
    let mut rs = vec![
        recipe("2", "up", "SELECT 2;", RecipeKind::Upgrade),
        recipe("1", "up", "SELECT 1;", RecipeKind::Upgrade),
        recipe("2", "base", "CREATE TABLE b();", RecipeKind::Baseline),
        recipe("10", "up", "SELECT 10;", RecipeKind::Upgrade),
    ];
    order_recipes(&mut rs, VersionComparator::Simple).unwrap();
    let order: Vec<(String, RecipeKind)> =
        rs.iter().map(|r| (r.version().to_string(), r.kind())).collect();
    assert_eq!(
        order,
        vec![
            ("1".to_string(), RecipeKind::Upgrade),
            ("10".to_string(), RecipeKind::Upgrade),
            ("2".to_string(), RecipeKind::Baseline),
            ("2".to_string(), RecipeKind::Upgrade),
        ]
    );
    let mut semver = vec![
        recipe("10.0.0", "up", "SELECT 10;", RecipeKind::Upgrade),
        recipe("2.0.0", "up", "SELECT 2;", RecipeKind::Upgrade),
    ];
    order_recipes(&mut semver, VersionComparator::Semver).unwrap();
    assert_eq!(semver[0].version(), "2.0.0");
    assert_eq!(semver[1].version(), "10.0.0");
}

#[test]
fn repeated_version_is_refused() {
    let mut rs = vec![
        recipe("1", "a", "SELECT 1;", RecipeKind::Upgrade),
        recipe("1", "b", "SELECT 2;", RecipeKind::Upgrade),
    ];
    match order_recipes(&mut rs, VersionComparator::Simple) {
        Err(RecipeError::RepeatedVersion { version, name1, name2 }) => {
            assert_eq!(version, "1");
            assert_eq!(name1, "a");
            assert_eq!(name2, "b");
        }
        other => panic!("unexpected {:?}", other),
    }
}

#[test]
fn fix_of_current_recipe_is_refused() {
    let up = recipe("1", "up", "SELECT 1;", RecipeKind::Upgrade);
    let revert_sql = format!("-- old_checksum: {}\nSELECT 0;", &up.checksum()[..8]);
    let mut rs = vec![up, recipe("1", "revert", &revert_sql, RecipeKind::Revert)];
    match order_recipes(&mut rs, VersionComparator::Simple) {
        Err(RecipeError::ConflictedFixup { version, name, .. }) => {
            assert_eq!(version, "1");
            assert_eq!(name, "revert");
        }
        other => panic!("unexpected {:?}", other),
    }
}

#[test]
fn fixup_target_must_exist() {
    let sql = "-- old_checksum: 1234567890\n-- new_name: other\n-- new_checksum: 0000000000\nSELECT 0;";
    let mut rs = vec![
        recipe("1", "up", "SELECT 1;", RecipeKind::Upgrade),
        recipe("1", "fixup", sql, RecipeKind::Fixup),
    ];
    match order_recipes(&mut rs, VersionComparator::Simple) {
        Err(RecipeError::InvalidFixupNewTarget { version, new_version, new_name, .. }) => {
            assert_eq!(version, "1");
            assert_eq!(new_version, "1");
            assert_eq!(new_name, "other");
        }
        other => panic!("unexpected {:?}", other),
    }
}

#[test]
fn consolidation_keeps_last_row_per_version() {
    let mut agg = Vec::new();
    let rows = vec![
        log(1, "000", "baseline", Some("c0")),
        log(2, "002", "upgrade", Some("c2")),
        log(3, "001", "upgrade", Some("c1")),
        log(4, "002", "revert", None),
        log(5, "001", "fixup", Some("c1b")),
    ];
    for row in rows.iter() {
        update_agg_log(&mut agg, VersionComparator::Simple, row);
    }
    let versions: Vec<&str> = agg.iter().map(|l| l.version()).collect();
    assert_eq!(versions, vec!["000", "001"]);
    assert_eq!(find_agg_log(&agg, VersionComparator::Simple, "001").unwrap().log_id(), 5);
    assert_eq!(find_agg_log(&agg, VersionComparator::Simple, "001").unwrap().checksum(), Some("c1b"));
    assert!(find_agg_log(&agg, VersionComparator::Simple, "002").is_none());
}

#[test]
fn empty_database_plans_baseline_then_upgrades() {
    let mut m = migrator(config(), vec![]);
    m.make_plan().unwrap();
    let plans = m.plans();
    assert_eq!(plans.len(), 3);
    assert_eq!(plans[0].script().kind(), RecipeKind::Baseline);
    assert_eq!(plans[0].script().version(), "000");
    assert_eq!(plans[1].script().version(), "001");
    assert_eq!(plans[2].script().version(), "002");
    let ids: Vec<i32> = plans.iter().map(|p| p.apply_log().unwrap().log_id()).collect();
    assert_eq!(ids, vec![1, 2, 3]);
    assert!(plans.iter().all(|p| p.revert_log().is_none() && p.log_id_to_revert().is_none()));
    assert_eq!(plans[0].apply_log().unwrap().kind_str(), "baseline");
    assert_eq!(plans[1].apply_log().unwrap().apply_by(), Some("tester"));
    assert_eq!(plans[2].sql(), "SELECT 2;");
    assert_eq!(m.baseline_version(), Some("000"));
    assert_eq!(m.updated_logs().len(), 3);
    assert!(m.check_updated_log().is_ok());
}

#[test]
fn target_version_limits_the_plan() {
    let mut c = config();
    c.target_version = Some("001".to_string());
    let mut m = migrator(c, vec![]);
    m.make_plan().unwrap();
    let versions: Vec<&str> = m.plans().iter().map(|p| p.script().version()).collect();
    assert_eq!(versions, vec!["000", "001"]);
    assert!(m.check_updated_log().is_ok());
}

#[test]
fn unknown_target_is_reported() {
    let mut c = config();
    c.target_version = Some("005".to_string());
    let mut m = migrator(c, vec![]);
    m.make_plan().unwrap();
    match m.check_updated_log() {
        Err(MigratorError::UnknownTarget { version, available }) => {
            assert_eq!(version, "005");
            assert_eq!(available, Some("002".to_string()));
        }
        other => panic!("unexpected {:?}", other),
    }
}

#[test]
fn applied_changelog_plans_only_pending_upgrades() {
    let probe = migrator(config(), vec![]);
    let c0 = checksum_of(&probe, "000");
    let c1 = checksum_of(&probe, "001");
    let mut m = migrator(
        config(),
        vec![log(1, "000", "baseline", Some(&c0)), log(2, "001", "upgrade", Some(&c1))],
    );
    m.make_plan().unwrap();
    assert_eq!(m.plans().len(), 1);
    assert_eq!(m.plans()[0].script().version(), "002");
    assert_eq!(m.plans()[0].apply_log().unwrap().log_id(), 3);
    assert_eq!(m.raw_logs().len(), 2);
    assert_eq!(m.consolidated_logs().len(), 2);
    assert_eq!(m.updated_logs().len(), 3);
    assert!(m.check_updated_log().is_ok());
}

#[test]
fn conflicting_and_unknown_migrations_are_reported() {
    let probe = migrator(config(), vec![]);
    let c0 = checksum_of(&probe, "000");
    let mut conflicted = migrator(
        config(),
        vec![log(1, "000", "baseline", Some(&c0)), log(2, "001", "upgrade", Some("ffffffffff"))],
    );
    conflicted.make_plan().unwrap();
    match conflicted.check_updated_log() {
        Err(MigratorError::ConflictedMigration { log, script }) => {
            assert_eq!(log.version(), "001");
            assert_eq!(script.version(), "001");
        }
        other => panic!("unexpected {:?}", other),
    }
    let mut unknown = migrator(
        config(),
        vec![log(1, "000", "baseline", Some(&c0)), log(2, "009", "upgrade", Some("ffffffffff"))],
    );
    unknown.make_plan().unwrap();
    match unknown.check_updated_log() {
        Err(MigratorError::UnknownMigration { log }) => assert_eq!(log.version(), "009"),
        other => panic!("unexpected {:?}", other),
    }
}

#[test]
fn missing_migration_is_reported() {
    let probe = migrator(config(), vec![]);
    let c0 = checksum_of(&probe, "000");
    let c2 = checksum_of(&probe, "002");
    let mut m = migrator(
        config(),
        vec![log(1, "000", "baseline", Some(&c0)), log(2, "002", "upgrade", Some(&c2))],
    );
    m.make_plan().unwrap();
    assert!(m.plans().is_empty());
    match m.check_updated_log() {
        Err(MigratorError::MissingMigration { script }) => assert_eq!(script.version(), "001"),
        other => panic!("unexpected {:?}", other),
    }
}

fn fix_migrator(allow_fixes: bool) -> Migrator {
    let mut rs = recipes();
    rs.push(recipe(
        "002",
        "revert_second",
        "-- old_checksum: deadbeef\nSELECT 0;",
        RecipeKind::Revert,
    ));
    let mut c = config();
    c.allow_fixes = allow_fixes;
    let mut m = Migrator::new(c, VersionComparator::Simple);
    m.set_recipes(rs).unwrap();
    let c0 = m.recipes()[0].checksum().to_string();
    let c1 = m.recipes()[1].checksum().to_string();
    m.accept_last_log_id(Ok(3)).unwrap();
    m.load_changelog(vec![
        log(1, "000", "baseline", Some(&c0)),
        log(2, "001", "upgrade", Some(&c1)),
        log(3, "002", "upgrade", Some("deadbeef00112233")),
    ]);
    m
}

#[test]
fn revert_is_planned_when_fixes_are_allowed() {
    let mut m = fix_migrator(true);
    m.make_plan().unwrap();
    let plans = m.plans();
    assert_eq!(plans.len(), 2);
    assert_eq!(plans[0].script().kind(), RecipeKind::Revert);
    assert_eq!(plans[0].log_id_to_revert(), Some(3));
    let revert = plans[0].revert_log().unwrap();
    assert_eq!(revert.log_id(), 4);
    assert_eq!(revert.version(), "002");
    assert_eq!(revert.checksum(), None);
    assert_eq!(revert.kind_str(), "revert");
    assert!(plans[0].apply_log().is_none());
    assert_eq!(plans[1].script().version(), "002");
    assert_eq!(plans[1].script().kind(), RecipeKind::Upgrade);
    assert_eq!(plans[1].apply_log().unwrap().log_id(), 5);
    assert!(m.check_updated_log().is_ok());
}

#[test]
fn revert_is_not_planned_without_fixes() {
    let mut m = fix_migrator(false);
    m.make_plan().unwrap();
    assert!(m.plans().is_empty());
    assert!(matches!(
        m.check_updated_log(),
        Err(MigratorError::ConflictedMigration { .. })
    ));
}

#[test]
fn missing_baseline_is_reported() {
    let mut m = Migrator::new(config(), VersionComparator::Simple);
    m.set_recipes(vec![recipe("001", "first", "SELECT 1;", RecipeKind::Upgrade)]).unwrap();
    m.accept_last_log_id(Ok(0)).unwrap();
    m.load_changelog(vec![]);
    assert!(matches!(m.make_plan(), Err(MigratorError::NoBaseline)));
    let mut c = config();
    c.suggested_baseline_version = Some("xyz".to_string());
    let mut m = migrator(c, vec![]);
    match m.make_plan() {
        Err(MigratorError::UnknownBaseline(v)) => assert_eq!(v, "xyz"),
        other => panic!("unexpected {:?}", other),
    }
}

#[test]
fn missing_log_table_needs_auto_initialize() {
    let mut m = Migrator::new(config(), VersionComparator::Simple);
    assert!(matches!(
        m.accept_last_log_id(Err(MigratorError::NoLogTable)),
        Err(MigratorError::NoLogTable)
    ));
    match m.accept_last_log_id(Err(MigratorError::DbError("down".to_string()))) {
        Err(MigratorError::DbError(message)) => assert_eq!(message, "down"),
        other => panic!("unexpected {:?}", other),
    }
    let mut c = config();
    c.auto_initialize = true;
    let mut m = Migrator::new(c, VersionComparator::Simple);
    assert!(m.accept_last_log_id(Err(MigratorError::NoLogTable)).is_ok());
}

#[test]
fn failed_set_recipes_keeps_migrator() {
    let mut m = Migrator::new(config(), VersionComparator::Simple);
    m.set_recipes(recipes()).unwrap();
    let bad = vec![
        recipe("1", "a", "SELECT 1;", RecipeKind::Upgrade),
        recipe("1", "b", "SELECT 2;", RecipeKind::Upgrade),
    ];
    assert!(matches!(
        m.set_recipes(bad),
        Err(MigratorError::RecipeError(RecipeError::RepeatedVersion { .. }))
    ));
    assert_eq!(m.recipes().len(), 3);
}

#[test]
fn log_ids_continue_from_the_database() {
    let mut m = Migrator::new(config(), VersionComparator::Simple);
    assert_eq!(m.next_log_id(), 1);
    m.accept_last_log_id(Ok(41)).unwrap();
    assert_eq!(m.next_log_id(), 42);
    let mut c = config();
    c.auto_initialize = true;
    let mut fresh = Migrator::new(c, VersionComparator::Simple);
    fresh.accept_last_log_id(Ok(9)).unwrap();
    fresh.accept_last_log_id(Err(MigratorError::NoLogTable)).unwrap();
    assert_eq!(fresh.next_log_id(), 1);
}

#[test]
fn suggested_baseline_is_used() {
    let mut rs = recipes();
    rs.push(recipe("001", "baseline", "CREATE TABLE a(b int);", RecipeKind::Baseline));
    let mut c = config();
    c.suggested_baseline_version = Some("000".to_string());
    let mut m = Migrator::new(c, VersionComparator::Simple);
    m.set_recipes(rs).unwrap();
    m.accept_last_log_id(Ok(0)).unwrap();
    m.load_changelog(vec![]);
    m.make_plan().unwrap();
    let versions: Vec<(&str, RecipeKind)> =
        m.plans().iter().map(|p| (p.script().version(), p.script().kind())).collect();
    assert_eq!(
        versions,
        vec![
            ("000", RecipeKind::Baseline),
            ("001", RecipeKind::Upgrade),
            ("002", RecipeKind::Upgrade)
        ]
    );

    let mut rs = recipes();
    rs.push(recipe("001", "baseline", "CREATE TABLE a(b int);", RecipeKind::Baseline));
    let mut m = Migrator::new(config(), VersionComparator::Simple);
    m.set_recipes(rs).unwrap();
    m.accept_last_log_id(Ok(0)).unwrap();
    m.load_changelog(vec![]);
    m.make_plan().unwrap();
    let versions: Vec<(&str, RecipeKind)> =
        m.plans().iter().map(|p| (p.script().version(), p.script().kind())).collect();
    assert_eq!(versions, vec![("001", RecipeKind::Baseline), ("002", RecipeKind::Upgrade)]);
}

#[test]
fn applying_a_fix_reverts_then_records() {
    let mut m = fix_migrator(true);
    m.make_plan().unwrap();
    let steps = apply_steps(&m.plans()[0]);
    assert_eq!(steps.len(), 5);
    assert!(matches!(steps[0], ApplyStep::ReadStartTime));
    assert!(matches!(steps[1], ApplyStep::RunScript(sql) if sql.ends_with("SELECT 0;")));
    assert!(matches!(steps[2], ApplyStep::MarkReverted(3)));
    assert!(matches!(steps[3], ApplyStep::ReadFinishTime));
    assert!(matches!(steps[4], ApplyStep::InsertRow(row) if row.log_id() == 4));
    let steps = apply_steps(&m.plans()[1]);
    assert_eq!(steps.len(), 4);
    assert!(matches!(steps[3], ApplyStep::InsertRow(row) if row.log_id() == 5 && row.version() == "002"));
}

#[test]
fn planning_twice_plans_nothing_more() {
    let mut m = migrator(config(), vec![]);
    m.make_plan().unwrap();
    let before: Vec<i32> = m.updated_logs().iter().map(|l| l.log_id()).collect();
    assert_eq!(m.plans().len(), 3);
    m.make_plan().unwrap();
    assert_eq!(m.plans().len(), 3);
    let after: Vec<i32> = m.updated_logs().iter().map(|l| l.log_id()).collect();
    assert_eq!(before, after);
}

#[test]
fn loading_the_changelog_clears_the_plans() {
    let mut m = migrator(config(), vec![]);
    m.make_plan().unwrap();
    assert_eq!(m.plans().len(), 3);
    m.accept_last_log_id(Ok(0)).unwrap();
    m.load_changelog(vec![]);
    assert!(m.plans().is_empty());
    m.make_plan().unwrap();
    let ids: Vec<i32> = m.plans().iter().map(|p| p.apply_log().unwrap().log_id()).collect();
    assert_eq!(ids, vec![1, 2, 3]);
}

#[test]
fn ordering_twice_changes_nothing() {
    let mut rs = recipes();
    order_recipes(&mut rs, VersionComparator::Simple).unwrap();
    let once: Vec<String> = rs.iter().map(|r| r.version().to_string()).collect();
    order_recipes(&mut rs, VersionComparator::Simple).unwrap();
    let twice: Vec<String> = rs.iter().map(|r| r.version().to_string()).collect();
    assert_eq!(once, twice);
}

#[test]
fn new_recipe_has_a_short_checksum() {
    let r = RecipeScript::new("1.0".into(), "up".into(), "".into(), Some(RecipeKind::Upgrade)).unwrap();
    assert_eq!(r.checksum32(), "e3b0c442");
    assert!(r.checksum().starts_with(r.checksum32()));
    assert!(r.match_checksum(r.checksum32()));
}

#[test]
fn second_fix_naming_the_baseline_is_refused() {
    let mut rs = vec![
        RecipeScript::new("1".into(), "base".into(), "".into(), Some(RecipeKind::Baseline)).unwrap(),
        RecipeScript::new("1".into(), "revert_a".into(), "-- old_checksum: zzzzzzzz".into(), Some(RecipeKind::Revert)).unwrap(),
        RecipeScript::new("1".into(), "revert_b".into(), "-- old_checksum: e3b0c442".into(), Some(RecipeKind::Revert)).unwrap(),
    ];
    match order_recipes(&mut rs, VersionComparator::Simple) {
        Err(RecipeError::ConflictedFixup { version, name, old_checksum }) => {
            assert_eq!(version, "1");
            assert_eq!(name, "revert_b");
            assert_eq!(old_checksum, "e3b0c442");
        }
        other => panic!("unexpected {:?}", other),
    }
}

#[test]
fn planned_rows_are_applied_by_the_tool_without_times() {
    let mut m = fix_migrator(true);
    m.make_plan().unwrap();
    for plan in m.plans() {
        for row in plan.revert_log().into_iter().chain(plan.apply_log()) {
            assert_eq!(row.apply_by(), Some("tester"));
            assert!(row.start_ts().is_none());
            assert!(row.finish_ts().is_none());
            assert!(row.revert_ts().is_none());
        }
    }
}
