use dbmigrator::loader::{
    load_sql_recipes, load_sql_recipes_iter, ReadError, RecipeFile, SIMPLE_FILENAME_PATTERN,
};
use dbmigrator::recipe::{simple_kind_detector, RecipeError, RecipeKind, RecipeScript};

type Detector = fn(&str, &str) -> Option<RecipeKind>;

fn file(path: &str, stem: &str, sql: &str) -> RecipeFile {
    RecipeFile {
        path: path.to_string(),
        file_stem: Some(stem.to_string()),
        content: Ok(sql.to_string()),
    }
}

#[test]
fn loads_files_named_by_the_simple_pattern() {
    let mut recipes: Vec<RecipeScript> = Vec::new();
    let files = vec![
        file("m/1.0.0_baseline.sql", "1.0.0_baseline", "CREATE TABLE a();"),
        file("m/1.1.0_add_email.sql", "1.1.0_add_email", "ALTER TABLE a ADD b int;"),
        file("m/1.1.0_revert_email.sql", "1.1.0_revert_email", "-- old_checksum: 12345678\nSELECT 1;"),
    ];
    let detector: Option<Detector> = Some(simple_kind_detector);
    load_sql_recipes(&mut recipes, files, SIMPLE_FILENAME_PATTERN, detector).unwrap();
    assert_eq!(recipes.len(), 3);
    assert_eq!(recipes[0].version(), "1.0.0");
    assert_eq!(recipes[0].name(), "baseline");
    assert_eq!(recipes[0].kind(), RecipeKind::Baseline);
    assert_eq!(recipes[1].version(), "1.1.0");
    assert_eq!(recipes[1].name(), "add_email");
    assert_eq!(recipes[1].kind(), RecipeKind::Upgrade);
    assert_eq!(
        recipes[1].checksum(),
        "69ff7c0f888146b7116b6113a242eb14f95b7f1b7d63442bb3f71cc1f2c20c32"
    );
    assert_eq!(recipes[2].kind(), RecipeKind::Revert);
    assert_eq!(recipes[2].old_checksum(), Some("12345678"));
}

#[test]
fn badly_named_file_stops_loading() {
    let mut recipes: Vec<RecipeScript> = Vec::new();
    let files = vec![
        file("m/1_first.sql", "1_first", "SELECT 1;"),
        file("m/2024-01-01Z1212 first.sql", "2024-01-01Z1212 first", "SELECT 2;"),
        file("m/3_third.sql", "3_third", "SELECT 3;"),
    ];
    let detector: Option<Detector> = Some(simple_kind_detector);
    match load_sql_recipes(&mut recipes, files, SIMPLE_FILENAME_PATTERN, detector) {
        Err(RecipeError::InvalidFilename { file_stem }) => {
            assert_eq!(file_stem, "2024-01-01Z1212 first")
        }
        other => panic!("unexpected {:?}", other),
    }
    assert_eq!(recipes.len(), 1);
    assert_eq!(recipes[0].name(), "first");
}

#[test]
fn read_errors_are_reported() {
    let loader = load_sql_recipes_iter::<Detector>(SIMPLE_FILENAME_PATTERN, None).unwrap();
    let missing = RecipeFile {
        path: "m/1_a.sql".to_string(),
        file_stem: Some("1_a".to_string()),
        content: Err(ReadError { not_found: true, message: "gone".to_string() }),
    };
    match loader.load(missing) {
        Err(RecipeError::InvalidRecipePath { path, reason }) => {
            assert_eq!(path, "m/1_a.sql");
            assert_eq!(reason, "gone");
        }
        other => panic!("unexpected {:?}", other),
    }
    let unreadable = RecipeFile {
        path: "m/1_a.sql".to_string(),
        file_stem: Some("1_a".to_string()),
        content: Err(ReadError { not_found: false, message: "denied".to_string() }),
    };
    assert!(matches!(
        loader.load(unreadable),
        Err(RecipeError::InvalidRecipeFile { .. })
    ));
    let no_stem = RecipeFile {
        path: "m/..".to_string(),
        file_stem: None,
        content: Ok("SELECT 1;".to_string()),
    };
    match loader.load(no_stem) {
        Err(RecipeError::InvalidRecipePath { reason, .. }) => {
            assert_eq!(reason, "Invalid file name")
        }
        other => panic!("unexpected {:?}", other),
    }
}

#[test]
fn without_detector_the_kind_comes_from_metadata() {
    let loader = load_sql_recipes_iter::<Detector>(SIMPLE_FILENAME_PATTERN, None).unwrap();
    let with_kind = file("m/1_x.sql", "1_x", "-- kind: baseline\nSELECT 1;");
    assert_eq!(loader.load(with_kind).unwrap().kind(), RecipeKind::Baseline);
    let without_kind = file("m/1_x.sql", "1_x", "SELECT 1;");
    match loader.load(without_kind) {
        Err(RecipeError::InvalidRecipeKind { kind }) => assert_eq!(kind, "unknown"),
        other => panic!("unexpected {:?}", other),
    }
}

#[test]
fn invalid_pattern_is_refused() {
    let mut recipes: Vec<RecipeScript> = Vec::new();
    let result = load_sql_recipes::<Detector>(
        &mut recipes,
        vec![file("m/1_a.sql", "1_a", "SELECT 1;")],
        "([unclosed",
        None,
    );
    assert!(matches!(result, Err(RecipeError::InvalidRegex(_))));
    assert!(recipes.is_empty());
}
