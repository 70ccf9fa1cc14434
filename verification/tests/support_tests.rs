use dbmigrator::changelog::Changelog;
use dbmigrator::cli::{
    checksum_label, duration_level, log_style, status_label, status_line, unfinished_label,
    version_label, Cli, Command, DurationLevel, LogSelection, LogStyle, ShowChangelogArgs,
};
use dbmigrator::migrator::MigratorError;
use dbmigrator::recipe::{RecipeError, RecipeKind, RecipeScript};
use dbmigrator::statements::{
    create_table_query, get_log_query, insert_statement, last_log_id_of, last_log_id_query,
    revert_statement,
};
use dbmigrator::text::{decimal_text, replace_text, same_text, starts_with, trimmed};
use dbmigrator::version::{lexicographic_order, Comparison, VersionComparator};

#[test]
fn replace_matches_std() {
    for (s, pat, with) in [
        ("a{x}b{x}", "{x}", "-"),
        ("aaaa", "aa", "b"),
        ("abc", "d", "e"),
        ("", "x", "y"),
        ("xx", "x", ""),
    ] {
        assert_eq!(replace_text(s, pat, with), s.replace(pat, with));
    }
}

#[test]
fn text_helpers() {
    assert!(same_text("abc", "abc"));
    assert!(!same_text("abc", "abd"));
    assert!(starts_with("baseline_x", "baseline"));
    assert!(!starts_with("base", "baseline"));
    let chars: Vec<char> = "  a b \t".chars().collect();
    assert_eq!(trimmed(&chars, 0, chars.len()), "a b");
    assert_eq!(decimal_text(0), "0");
    assert_eq!(decimal_text(-42), "-42");
    assert_eq!(decimal_text(i32::MIN), "-2147483648");
    assert_eq!(decimal_text(i32::MAX), "2147483647");
}

#[test]
fn comparators() {
    assert_eq!(lexicographic_order("a", "b"), Comparison::Less);
    assert_eq!(lexicographic_order("ab", "a"), Comparison::Greater);
    assert_eq!(VersionComparator::Simple.compare("10", "9"), std::cmp::Ordering::Less);
    assert_eq!(VersionComparator::Semver.compare("10", "9"), std::cmp::Ordering::Greater);
}

#[test]
fn changelog_statements() {
    assert_eq!(
        last_log_id_query("my_log"),
        "SELECT max(log_id) AS last_log_id FROM my_log;"
    );
    assert!(create_table_query("my_log").starts_with("CREATE TABLE IF NOT EXISTS my_log(\n"));
    assert_eq!(
        get_log_query("t"),
        "SELECT log_id, version, name, kind, checksum, apply_by, start_ts, finish_ts, revert_ts FROM t ORDER BY log_id ASC;"
    );
    assert_eq!(revert_statement("t"), "UPDATE t SET revert_ts = $2 WHERE log_id = $1;");
    assert_eq!(
        insert_statement("t"),
        "INSERT INTO t (log_id, version, name, kind, checksum, apply_by, start_ts, finish_ts) VALUES ($1, $2, $3, $4, $5, $6, $7, $8);"
    );
    assert_eq!(last_log_id_of(Some(Some(7))), 7);
    assert_eq!(last_log_id_of(Some(None)), 0);
    assert_eq!(last_log_id_of(None), -1);
}

fn entry(checksum: Option<&str>, kind: &str) -> Changelog {
    Changelog::new(
        3,
        "1.0".to_string(),
        None,
        kind.to_string(),
        checksum.map(|c| c.to_string()),
        Some("me".to_string()),
        None,
        None,
        None,
    )
}

#[test]
fn changelog_entries() {
    let e = entry(Some("0123456789abcdef"), "upgrade");
    assert_eq!(e.log_id(), 3);
    assert_eq!(e.version(), "1.0");
    assert_eq!(e.name(), None);
    assert_eq!(e.kind(), Some(RecipeKind::Upgrade));
    assert!(e.is_upgrade() && !e.is_baseline() && !e.is_fix());
    assert_eq!(e.checksum32(), Some("01234567"));
    assert_eq!(e.apply_by(), Some("me"));
    assert_eq!(e.to_string(), "#3 v: 1.0 - upgrade, (0123456789abcdef)");
    let r = entry(None, "revert");
    assert!(r.is_fix());
    assert_eq!(r.checksum32(), None);
    assert_eq!(r.to_string(), "#3 v: 1.0 - revert, (-)");
    assert_eq!(entry(None, "other").kind(), None);
}

#[test]
fn log_listing_marks() {
    assert_eq!(log_style(&entry(None, "upgrade")), LogStyle::Reverted);
    assert_eq!(log_style(&entry(Some("c"), "baseline")), LogStyle::Baseline);
    assert_eq!(log_style(&entry(Some("c"), "fixup")), LogStyle::Fix);
    assert_eq!(log_style(&entry(Some("c"), "upgrade")), LogStyle::Upgrade);
    assert_eq!(log_style(&entry(Some("c"), "x")), LogStyle::Other);
    assert_eq!(duration_level(59), DurationLevel::Short);
    assert_eq!(duration_level(60), DurationLevel::Long);
    assert_eq!(duration_level(3599), DurationLevel::Long);
    assert_eq!(duration_level(3600), DurationLevel::VeryLong);
    assert_eq!(unfinished_label(true), "pending");
    assert_eq!(unfinished_label(false), "unknown");
}

#[test]
fn recipe_labels() {
    let up = RecipeScript::new("1".into(), "up".into(), "SELECT 1;".into(), Some(RecipeKind::Upgrade)).unwrap();
    assert_eq!(version_label(&up), "1");
    assert_eq!(checksum_label(&up), up.checksum()[..8].to_string());
    let revert = RecipeScript::new(
        "1".into(),
        "revert".into(),
        "-- old_checksum: aaaabbbbcccc\nSELECT 0;".into(),
        Some(RecipeKind::Revert),
    )
    .unwrap();
    assert_eq!(checksum_label(&revert), "aaaabbbb -> revert");
    let fixup = RecipeScript::new(
        "1".into(),
        "fixup".into(),
        "-- old_checksum: aaaabbbbcccc\n-- new_version: 2\n-- new_name: n\n-- new_checksum: 1111222233\nSELECT 0;".into(),
        Some(RecipeKind::Fixup),
    )
    .unwrap();
    assert_eq!(checksum_label(&fixup), "aaaabbbb -> 11112222");
    assert_eq!(version_label(&fixup), "1 -> 2");
}

#[test]
fn status_and_selection() {
    assert_eq!(status_label(&MigratorError::NoLogTable), "db-uninitialized");
    assert_eq!(status_label(&MigratorError::DbError("x".into())), "db-error");
    assert_eq!(
        status_label(&MigratorError::RecipeError(RecipeError::InvalidFilename {
            file_stem: "x".into()
        })),
        "recipe-error"
    );
    assert_eq!(status_label(&MigratorError::NoBaseline), "internal-error");
    assert_eq!(status_line(0), "up-to-date");
    assert_eq!(status_line(2), "pending-migrations");
    let args = ShowChangelogArgs { consolidated: true, with_pending: true };
    assert_eq!(args.selection(), LogSelection::Updated);
    let args = ShowChangelogArgs { consolidated: true, with_pending: false };
    assert_eq!(args.selection(), LogSelection::Consolidated);
    let args = ShowChangelogArgs { consolidated: false, with_pending: false };
    assert_eq!(args.selection(), LogSelection::Raw);
}

#[test]
fn cli_options_give_config() {
    let cli = Cli {
        db_url: None,
        migrations: "./migrations".into(),
        ddl_path: "./ddl".into(),
        auto_initialize: true,
        changelog_table_name: "log".into(),
        suggested_baseline_version: Some("1".into()),
        target_version: None,
        allow_fixes: true,
        allow_out_of_order: false,
        command: Some(Command::ShowPlan),
    };
    let config = cli.config("tool 1.0".into());
    assert!(config.auto_initialize);
    assert_eq!(config.log_table_name, Some("log".to_string()));
    assert_eq!(config.suggested_baseline_version, Some("1".to_string()));
    assert_eq!(config.target_version, None);
    assert_eq!(config.apply_by, Some("tool 1.0".to_string()));
    assert!(config.allow_fixes);
    assert!(!config.allow_out_of_order);
}

#[test]
fn version_compare_keeps_semver_order() {
    let versions = ["1.0.0", "5.0.0", "5.3.0", "10.2.3", "10.10.1"];
    for i in 0..versions.len() {
        for j in 0..versions.len() {
            assert_eq!(
                dbmigrator::version::version_compare(versions[i], versions[j]),
                i.cmp(&j)
            );
        }
    }
    assert_eq!(
        dbmigrator::version::simple_compare("10.2.3", "5.0.0"),
        std::cmp::Ordering::Less
    );
}
