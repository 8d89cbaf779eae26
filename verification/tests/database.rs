use rustpanel_core::database::{
    create_database_sql, create_user_sql, engine_from_dsn, quote_identifier, returns_rows,
    split_sql_statements, sql_string_literal, validate_identifier, DatabaseEngineKind,
};

#[test]
fn rejects_unsafe_identifier() {
    assert!(validate_identifier("valid_name_1").is_ok());
    assert!(validate_identifier("bad-name").is_err());
    assert!(validate_identifier("name;drop").is_err());
}

#[test]
fn detects_query_shape() {
    assert!(returns_rows("SELECT 1"));
    assert!(!returns_rows("UPDATE users SET name = 'a'"));
}

#[test]
fn splits_sql_statements_and_skips_blanks_and_comments() {
    let stmts = split_sql_statements("CREATE TABLE t(id int);\n-- a comment\nINSERT INTO t VALUES (1);\n\n");
    assert_eq!(stmts.len(), 2);
    assert_eq!(stmts[0], "CREATE TABLE t(id int)");
    assert_eq!(stmts[1], "INSERT INTO t VALUES (1)");
}

#[test]
fn quotes_identifier_per_engine() {
    assert_eq!(quote_identifier(DatabaseEngineKind::Mysql, "t"), "`t`");
    assert_eq!(quote_identifier(DatabaseEngineKind::Postgres, "t"), "\"t\"");
}

#[test]
fn leading_space_and_case_do_not_hide_a_query() {
    assert!(returns_rows("  \n with x as (select 1) select * from x"));
    assert!(returns_rows("PRAGMA table_info(t)"));
}

#[test]
fn dsn_scheme_picks_the_engine() {
    assert_eq!(engine_from_dsn("postgresql://x").expect("pg"), DatabaseEngineKind::Postgres);
    assert_eq!(engine_from_dsn("sqlite:/tmp/a.db").expect("sqlite"), DatabaseEngineKind::Sqlite);
    assert!(engine_from_dsn("redis://x").is_err());
}

#[test]
fn literals_double_single_quotes() {
    assert_eq!(sql_string_literal("it's"), "'it''s'");
    let (create, grant) = create_user_sql(DatabaseEngineKind::Mysql, "app", "db", "p'w").expect("sql");
    assert_eq!(create, "CREATE USER IF NOT EXISTS 'app'@'%' IDENTIFIED BY 'p''w'");
    assert_eq!(grant, "GRANT ALL PRIVILEGES ON `db`.* TO 'app'@'%'");
    assert!(create_database_sql(DatabaseEngineKind::Sqlite, "x").is_err());
}
