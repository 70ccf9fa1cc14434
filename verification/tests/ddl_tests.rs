use dbmigrator::ddl::{expand_name, DdlConfig, DdlEntry, DdlMatchError, PgDdlRule, NAME_PATTERN};

fn rule(empty_namespace: bool, desc: Option<&str>, tag: Option<&str>, filename: &str) -> PgDdlRule {
    PgDdlRule {
        empty_namespace,
        desc_pattern: desc.map(|s| s.to_string()),
        tag_pattern: tag.map(|s| s.to_string()),
        filename: filename.to_string(),
    }
}

fn entry(namespace: &str, desc: &str, tag: &str) -> DdlEntry {
    DdlEntry {
        namespace: namespace.to_string(),
        desc: desc.to_string(),
        tag: tag.to_string(),
    }
}

#[test]
fn name_placeholder_is_expanded() {
    assert_eq!(expand_name("^TABLE$"), "^TABLE$");
    assert_eq!(expand_name("^{name}$"), format!("^{}$", NAME_PATTERN));
    assert_eq!(
        expand_name("{name}.{name}"),
        "{name}.{name}".replace("{name}", NAME_PATTERN)
    );
    assert_eq!(expand_name("{nam}"), "{nam}");
}

#[test]
fn first_matching_rule_names_the_file() {
    let mut config = DdlConfig::new();
    let errors = config.push_postgres_ddl_ruleset(vec![
        rule(true, Some("^EXTENSION$"), None, "extensions.sql"),
        rule(false, Some("^TABLE$"), Some("^{name}$"), "{{namespace}}/tables/{{tag_parts.[1]}}.sql"),
        rule(false, None, None, "{{namespace}}/other.sql"),
    ]);
    assert!(errors.is_empty());
    let (name, errors) = config.pgddl_filename(&entry("public", "TABLE", "users"));
    assert_eq!(name, Some("public/tables/users.sql".to_string()));
    assert!(errors.is_empty());
    let (name, _) = config.pgddl_filename(&entry("", "EXTENSION", "postgis"));
    assert_eq!(name, Some("extensions.sql".to_string()));
    let (name, _) = config.pgddl_filename(&entry("app", "VIEW", "v"));
    assert_eq!(name, Some("app/other.sql".to_string()));
    let (name, errors) = config.pgddl_filename(&entry("", "COMMENT", "x"));
    assert_eq!(name, None);
    assert!(errors.is_empty());
}

#[test]
fn rule_with_bad_pattern_is_left_out() {
    let mut config = DdlConfig::new();
    let errors = config.push_postgres_ddl_ruleset(vec![
        rule(false, Some("([bad"), None, "bad.sql"),
        rule(false, None, None, "all.sql"),
    ]);
    assert_eq!(errors.len(), 1);
    let (name, _) = config.pgddl_filename(&entry("s", "TABLE", "t"));
    assert_eq!(name, Some("all.sql".to_string()));
}

#[test]
fn unmatched_group_is_reported_and_search_goes_on() {
    let mut config = DdlConfig::new();
    let errors = config.push_postgres_ddl_ruleset(vec![
        rule(false, Some("^TABLE( DATA)?$"), None, "data.sql"),
        rule(false, None, None, "rest.sql"),
    ]);
    assert!(errors.is_empty());
    let (name, errors) = config.pgddl_filename(&entry("s", "TABLE", "t"));
    assert_eq!(name, Some("rest.sql".to_string()));
    assert_eq!(errors.len(), 1);
    assert!(matches!(errors[0], DdlMatchError::UnmatchedGroup));
    let (name, errors) = config.pgddl_filename(&entry("s", "TABLE DATA", "t"));
    assert_eq!(name, Some("data.sql".to_string()));
    assert!(errors.is_empty());
}

#[test]
fn invalid_template_refuses_the_ruleset() {
    let mut config = DdlConfig::new();
    let result = config.try_push_postgres_ddl_ruleset(vec![
        rule(false, None, None, "ok.sql"),
        rule(false, None, None, "{{#if a}}unclosed"),
    ]);
    assert_eq!(result.err(), Some(1));
    let (name, _) = config.pgddl_filename(&entry("s", "TABLE", "t"));
    assert_eq!(name, None);
    let ok = config.try_push_postgres_ddl_ruleset(vec![rule(false, None, None, "ok.sql")]);
    assert!(ok.is_ok());
    let (name, _) = config.pgddl_filename(&entry("s", "TABLE", "t"));
    assert_eq!(name, Some("ok.sql".to_string()));
}
