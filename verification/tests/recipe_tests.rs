use dbmigrator::metadata::{parse_sql_metadata, SqlMetadata};
use dbmigrator::recipe::RecipeKind;
use dbmigrator::version::{simple_compare, version_compare};

#[test]
fn test_kind_from_str() {
    assert_eq!(
        RecipeKind::from_str("baseline").unwrap(),
        RecipeKind::Baseline
    );
    assert_eq!(
        RecipeKind::from_str("upgrade").unwrap(),
        RecipeKind::Upgrade
    );
    assert_eq!(RecipeKind::from_str("revert").unwrap(), RecipeKind::Revert);
    assert_eq!(RecipeKind::from_str("fixup").unwrap(), RecipeKind::Fixup);
    assert!(RecipeKind::from_str("unknown").is_err());
}

#[test]
fn test_parse_sql_metadata() {
    let sql = "-- version: 1.0.0\n-- name: test_migration\n-- kind: upgrade\n-- old_checksum: abc123af\n-- new_checksum: def456dd\n-- maximum_version: 2.0.0\n-- new_version: 1.1.0\n-- new_name: new_test_migration\n\nSELECT * FROM test;\n-- some: data\n-- Extra comment...";
    let mut metadata = SqlMetadata::new();
    parse_sql_metadata(sql, &mut metadata);

    assert_eq!(metadata.get("version"), Some(&"1.0.0".to_string()));
    assert_eq!(metadata.get("name"), Some(&"test_migration".to_string()));
    assert_eq!(metadata.get("kind"), Some(&"upgrade".to_string()));
    assert_eq!(metadata.get("old_checksum"), Some(&"abc123af".to_string()));
    assert_eq!(metadata.get("new_checksum"), Some(&"def456dd".to_string()));
    assert_eq!(metadata.get("maximum_version"), Some(&"2.0.0".to_string()));
    assert_eq!(metadata.get("new_version"), Some(&"1.1.0".to_string()));
    assert_eq!(
        metadata.get("new_name"),
        Some(&"new_test_migration".to_string())
    );
    assert!(metadata.get("some").is_none());
}

#[test]
fn test_parse_sql_metadata_with_no_metadata() {
    let sql = "SELECT * FROM test;";
    let mut metadata = SqlMetadata::new();
    parse_sql_metadata(sql, &mut metadata);

    assert!(metadata.is_empty());
}

#[test]
fn test_parse_sql_metadata_with_partial_metadata() {
    let sql =
        "-- version: 1.0.0\n-- name: test_migration\nSELECT * FROM test;\n-- wrong: metadata";
    let mut metadata = SqlMetadata::new();
    parse_sql_metadata(sql, &mut metadata);

    assert_eq!(metadata.get("version"), Some(&"1.0.0".to_string()));
    assert_eq!(metadata.get("name"), Some(&"test_migration".to_string()));
    assert!(metadata.get("kind").is_none());
    assert_eq!(metadata.len(), 2)
}

#[test]
fn test_simple_compare() {
    assert_eq!(
        simple_compare("20240201T112301", "20240201T112301"),
        std::cmp::Ordering::Equal
    );
    assert_eq!(
        simple_compare("20240201T112301", "20240202T112301"),
        std::cmp::Ordering::Less
    );
    assert_eq!(
        simple_compare("20240201T112301B", "20240201T112301"),
        std::cmp::Ordering::Greater
    );
}

#[test]
fn use_version_compare() {
    assert_eq!(version_compare("1.0.0", "1.0.0"), std::cmp::Ordering::Equal);
    assert_eq!(version_compare("2.0.0", "10.0.1"), std::cmp::Ordering::Less);
    assert_eq!(
        version_compare("1.0.0-14", "1.0.0-2"),
        std::cmp::Ordering::Greater
    );
    assert_eq!(version_compare("1.0.0", "2.0.0"), std::cmp::Ordering::Less);
    assert_eq!(
        version_compare("2.0.0", "1.0.0"),
        std::cmp::Ordering::Greater
    );
    assert_eq!(
        version_compare("1.0.0-revB", "1.0.0-revA"),
        std::cmp::Ordering::Greater
    );
    assert_eq!(
        version_compare("1.20.4-m1", "1.100.2-m2"),
        std::cmp::Ordering::Less
    );
}

use dbmigrator::checksum::sql_checksum;
use dbmigrator::recipe::{
    checksum_prefix_match, simple_kind_detector, RecipeError, RecipeMeta, RecipeScript,
};

fn recipe(version: &str, name: &str, sql: &str, kind: Option<RecipeKind>) -> RecipeScript {
    RecipeScript::new(version.to_string(), name.to_string(), sql.to_string(), kind).unwrap()
}

#[test]
fn kind_names_round_trip() {
    for kind in [
        RecipeKind::Baseline,
        RecipeKind::Upgrade,
        RecipeKind::Revert,
        RecipeKind::Fixup,
    ] {
        assert_eq!(RecipeKind::from_str(&kind.to_string()).unwrap(), kind);
    }
    assert_eq!(RecipeKind::Fixup.to_string(), "fixup");
    assert_eq!(RecipeKind::Baseline.rank(), 0);
    assert_eq!(RecipeKind::Fixup.rank(), 3);
    match RecipeKind::from_str("Baseline") {
        Err(RecipeError::InvalidRecipeKind { kind }) => assert_eq!(kind, "Baseline"),
        other => panic!("unexpected {:?}", other),
    }
}

#[test]
fn checksum_is_lowercase_hex_sha256() {
    assert_eq!(
        sql_checksum(""),
        "e3b0c44298fc1c149afbf4c8996fb92427ae41e4649b934ca495991b7852b855"
    );
    assert_eq!(
        sql_checksum("SELECT 1;"),
        "17db4fd369edb9244b9f91d9aeed145c3d04ad8ba6e95d06247f07a63527d11a"
    );
}

#[test]
fn new_recipe_takes_name_version_and_checksum() {
    let r = recipe("1.0.0", "create_a", "CREATE TABLE a();", Some(RecipeKind::Upgrade));
    assert_eq!(r.version(), "1.0.0");
    assert_eq!(r.name(), "create_a");
    assert_eq!(r.sql(), "CREATE TABLE a();");
    assert_eq!(
        r.checksum(),
        "a8244c304686a6281431292e1c92c63f5803194fe5453363a2a91372397548b7"
    );
    assert_eq!(r.checksum32(), "a8244c30");
    assert_eq!(r.kind(), RecipeKind::Upgrade);
    assert!(r.is_upgrade());
    assert!(!r.is_baseline());
    assert_eq!(r.old_checksum(), None);
    assert_eq!(r.maximum_version(), None);
    assert_eq!(r.new_target(), None);
    assert_eq!(r.to_string(), "1.0.0 create_a (a8244c30)");
}

#[test]
fn metadata_overrides_file_name() {
    let sql = "-- version: 2.0.0\n-- name: other\n-- kind: baseline\nSELECT 1;";
    let r = recipe("1.0.0", "first", sql, Some(RecipeKind::Upgrade));
    assert_eq!(r.version(), "2.0.0");
    assert_eq!(r.name(), "other");
    assert!(r.is_baseline());
    assert_eq!(r.meta, RecipeMeta::Baseline);
}

#[test]
fn revert_recipe_reads_its_metadata() {
    let sql = "-- old_checksum: abcdef0123\nDROP TABLE a;";
    let r = recipe("1.0.0", "revert_a", sql, Some(RecipeKind::Revert));
    assert_eq!(r.kind(), RecipeKind::Revert);
    assert_eq!(r.old_checksum(), Some("abcdef0123"));
    assert_eq!(r.old_checksum32(), Some("abcdef01"));
    assert_eq!(r.maximum_version(), Some("1.0.0"));
    assert_eq!(r.new_version(), None);
    let own = r.checksum().to_string();
    assert!(r.match_checksum(&own[..8]));
    assert!(r.match_checksum(&own));
    assert!(!r.match_checksum(&own[..7]));
    assert!(!r.match_checksum("abcdef01"));
}

#[test]
fn fixup_recipe_reads_its_target() {
    let sql = "-- old_checksum: 11112222\n-- maximum_version: 3.0.0\n-- new_version: 1.0.1\n-- new_name: fixed\n-- new_checksum: 33334444aaaa\nSELECT 1;";
    let r = recipe("1.0.0", "fixup_a", sql, Some(RecipeKind::Fixup));
    assert_eq!(r.kind(), RecipeKind::Fixup);
    assert_eq!(r.maximum_version(), Some("3.0.0"));
    assert_eq!(r.new_version(), Some("1.0.1"));
    assert_eq!(r.new_target(), Some(("1.0.1", "fixed", "33334444aaaa")));
    assert_eq!(r.new_checksum32(), Some("33334444"));
    assert_eq!(r.to_string(), format!("1.0.0 -> 1.0.1 fixup_a ({})", &r.checksum()[..8]));
}

#[test]
fn recipe_errors() {
    let missing = RecipeScript::new("1".into(), "revert".into(), "DROP TABLE a;".into(), Some(RecipeKind::Revert));
    match missing {
        Err(RecipeError::InvalidRevertMeta { version, name }) => {
            assert_eq!(version, "1");
            assert_eq!(name, "revert");
        }
        other => panic!("unexpected {:?}", other),
    }
    let fixup = RecipeScript::new(
        "1".into(),
        "fixup".into(),
        "-- old_checksum: 11112222\nSELECT 1;".into(),
        Some(RecipeKind::Fixup),
    );
    assert!(matches!(fixup, Err(RecipeError::InvalidFixupMeta { .. })));
    let unknown = RecipeScript::new("1".into(), "x".into(), "SELECT 1;".into(), None);
    match unknown {
        Err(RecipeError::InvalidRecipeKind { kind }) => assert_eq!(kind, "unknown"),
        other => panic!("unexpected {:?}", other),
    }
    let bad_kind = RecipeScript::new("1".into(), "x".into(), "-- kind: undo\nSELECT 1;".into(), None);
    match bad_kind {
        Err(RecipeError::InvalidRecipeKind { kind }) => assert_eq!(kind, "undo"),
        other => panic!("unexpected {:?}", other),
    }
}

#[test]
fn simple_kind_detector_reads_name_prefix() {
    assert_eq!(simple_kind_detector("", "baseline"), Some(RecipeKind::Baseline));
    assert_eq!(simple_kind_detector("", "baseline_v2"), Some(RecipeKind::Baseline));
    assert_eq!(simple_kind_detector("", "revert_users"), Some(RecipeKind::Revert));
    assert_eq!(simple_kind_detector("", "fixup"), Some(RecipeKind::Fixup));
    assert_eq!(simple_kind_detector("", "create_users"), Some(RecipeKind::Upgrade));
    assert_eq!(simple_kind_detector("x/base.sql", "base"), Some(RecipeKind::Upgrade));
}

#[test]
fn checksum_prefix_needs_eight_bytes() {
    let c = "a8244c304686a6281431292e1c92c63f5803194fe5453363a2a91372397548b7";
    assert!(checksum_prefix_match(c, "a8244c30"));
    assert!(checksum_prefix_match(c, c));
    assert!(!checksum_prefix_match(c, "a8244c3"));
    assert!(!checksum_prefix_match(c, "b8244c30"));
    assert!(!checksum_prefix_match("a8244c30", "a8244c3046"));
}

#[test]
fn metadata_insert_then_get() {
    let mut m = SqlMetadata::new();
    m.insert("k".to_string(), "1".to_string());
    m.insert("j".to_string(), "2".to_string());
    m.insert("k".to_string(), "3".to_string());
    assert_eq!(m.get("k"), Some(&"3".to_string()));
    assert_eq!(m.get("j"), Some(&"2".to_string()));
    assert_eq!(m.len(), 2);
    assert!(m.get("x").is_none());
}

#[test]
fn metadata_trims_and_stops_at_code() {
    let mut m = SqlMetadata::new();
    parse_sql_metadata("--   version :  1.2  \n-- no colon here\n--name:n: x\nSELECT 1;\n-- kind: upgrade", &mut m);
    assert_eq!(m.get("version"), Some(&"1.2".to_string()));
    assert_eq!(m.get("name"), Some(&"n: x".to_string()));
    assert!(m.get("kind").is_none());
    assert_eq!(m.len(), 2);
    let mut indented = SqlMetadata::new();
    parse_sql_metadata(" -- version: 1\n-- name: n", &mut indented);
    assert!(indented.is_empty());
}
