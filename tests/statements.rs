use sqlx_crud_schema::dialect::DbType;
use sqlx_crud_schema::schema::{Config, FieldDescriptor, SchemaError};
use sqlx_crud_schema::sql::{build_sql_queries, build_static_model_schema, join_parts};

fn field(name: &str) -> FieldDescriptor {
    FieldDescriptor {
        name: name.to_string(),
        id: false,
        auto_increment: false,
        ignore_insert: false,
        ignore_update: false,
        deleted_with: None,
    }
}

fn id_field(name: &str, auto_increment: bool) -> FieldDescriptor {
    FieldDescriptor { id: true, auto_increment, ..field(name) }
}

fn soft_field(name: &str, expr: &str) -> FieldDescriptor {
    FieldDescriptor { deleted_with: Some(expr.to_string()), ..field(name) }
}

fn records() -> Config {
    Config::new("Record", vec![id_field("id", true), field("name")], None).unwrap()
}

fn items() -> Config {
    Config::new(
        "Item",
        vec![id_field("id", false), field("name"), soft_field("deleted_at", "NOW()")],
        None,
    )
    .unwrap()
}

#[test]
fn auto_increment_record_insert() {
    let config = records();
    assert_eq!(config.table_name, "records");
    let queries = build_sql_queries(&config);
    assert_eq!(queries.insert_sql, r#"INSERT INTO "records" ("name") VALUES (?)"#);
    let args = config.insert_args(&vec!["1", "hello"]);
    assert_eq!(args, vec!["hello"]);
}

#[test]
fn auto_increment_record_other_statements() {
    let queries = build_sql_queries(&records());
    assert_eq!(queries.select_sql, r#"SELECT "records"."id", "records"."name" FROM "records""#);
    assert_eq!(
        queries.select_by_id_sql,
        r#"SELECT "records"."id", "records"."name" FROM "records" WHERE "records"."id" = ? LIMIT 1"#
    );
    assert_eq!(
        queries.update_by_id_sql,
        r#"UPDATE "records" SET "name" = ? WHERE "records"."id" = ?"#
    );
    assert_eq!(queries.delete_by_id_sql, r#"DELETE FROM "records" WHERE "records"."id" = ?"#);
    for q in [&queries.select_sql, &queries.select_by_id_sql, &queries.update_by_id_sql, &queries.delete_by_id_sql] {
        assert!(!q.contains("IS NULL"));
    }
}

#[test]
fn soft_delete_record_statements() {
    let queries = build_sql_queries(&items());
    assert_eq!(
        queries.delete_by_id_sql,
        r#"UPDATE "items" SET "deleted_at" = NOW() WHERE "items"."id" = ? AND "deleted_at" IS NULL"#
    );
    assert_eq!(
        queries.select_sql,
        r#"SELECT "items"."id", "items"."name", "items"."deleted_at" FROM "items" WHERE "deleted_at" IS NULL"#
    );
    assert_eq!(
        queries.select_by_id_sql,
        r#"SELECT "items"."id", "items"."name", "items"."deleted_at" FROM "items" WHERE "items"."id" = ? AND "deleted_at" IS NULL LIMIT 1"#
    );
    assert_eq!(
        queries.update_by_id_sql,
        r#"UPDATE "items" SET "name" = ?, "deleted_at" = ? WHERE "items"."id" = ? AND "deleted_at" IS NULL"#
    );
    assert_eq!(
        queries.insert_sql,
        r#"INSERT INTO "items" ("id", "name", "deleted_at") VALUES (?, ?, ?)"#
    );
}

#[test]
fn soft_delete_leaves_insert_alone() {
    let plain = Config::new("Item", vec![id_field("id", false), field("name"), field("deleted_at")], None).unwrap();
    let soft = build_sql_queries(&items());
    let plain = build_sql_queries(&plain);
    assert_eq!(plain.insert_sql, soft.insert_sql);
    assert_eq!(format!("{} WHERE \"deleted_at\" IS NULL", plain.select_sql), soft.select_sql);
    assert_eq!(format!("{} AND \"deleted_at\" IS NULL", plain.update_by_id_sql), soft.update_by_id_sql);
    assert!(plain.delete_by_id_sql.starts_with("DELETE FROM "));
    assert!(soft.delete_by_id_sql.starts_with("UPDATE "));
}

#[test]
fn update_binds_identity_last() {
    let config = items();
    let args = config.update_args(&vec![7, 8, 9]);
    assert_eq!(args, vec![8, 9, 7]);
    assert_eq!(*args.last().unwrap(), 7);
    let insert = config.insert_args(&vec![7, 8, 9]);
    assert_eq!(insert, vec![7, 8, 9]);
}

#[test]
fn placeholders_match_insert_arguments() {
    let config = Config::new(
        "Account",
        vec![
            field("a"),
            FieldDescriptor { ignore_insert: true, ..field("b") },
            field("c"),
            FieldDescriptor { ignore_update: true, ..field("d") },
        ],
        Some("postgres"),
    )
    .unwrap();
    let queries = build_sql_queries(&config);
    let row = vec![1, 2, 3, 4];
    let args = config.insert_args(&row);
    assert_eq!(args, vec![1, 3, 4]);
    assert_eq!(queries.insert_sql.matches('?').count(), args.len());
    assert_eq!(queries.insert_sql, r#"INSERT INTO "accounts" ("a", "c", "d") VALUES (?, ?, ?)"#);
    let update = config.update_args(&row);
    assert_eq!(update, vec![2, 3, 1]);
    assert_eq!(queries.update_by_id_sql, r#"UPDATE "accounts" SET "b" = ?, "c" = ? WHERE "accounts"."a" = ?"#);
}

#[test]
fn identity_defaults_to_first_field() {
    let config = Config::new("Tag", vec![field("code"), field("label")], None).unwrap();
    assert_eq!(config.id_index, 0);
    assert_eq!(config.insert_fields, vec![0, 1]);
    assert_eq!(config.update_fields, vec![1]);
}

#[test]
fn identity_marker_chooses_field() {
    let config = Config::new("Tag", vec![field("label"), id_field("code", true)], None).unwrap();
    assert_eq!(config.id_index, 1);
    assert!(config.id_auto_increment);
    assert_eq!(config.insert_fields, vec![0]);
    assert_eq!(config.update_fields, vec![0]);
}

#[test]
fn non_auto_increment_identity_inserted_once() {
    let config = Config::new("Tag", vec![field("label"), id_field("code", false)], None).unwrap();
    assert_eq!(config.insert_fields.iter().filter(|&&i| i == 1).count(), 1);
}

#[test]
fn mysql_quotes_with_backticks() {
    let config = Config::new("Record", vec![id_field("id", true), field("name")], Some("mysql")).unwrap();
    assert_eq!(config.db_ty, DbType::MySql);
    let queries = build_sql_queries(&config);
    assert_eq!(queries.insert_sql, "INSERT INTO `records` (`name`) VALUES (?)");
    assert_eq!(DbType::MySql.quote_ident("user"), "`user`");
}

#[test]
fn other_dialects_quote_with_double_quotes() {
    for d in [DbType::Any, DbType::Mssql, DbType::Postgres, DbType::Sqlite] {
        assert_eq!(d.quote_ident("user"), "\"user\"");
    }
    assert_eq!(DbType::Sqlite.quote_ident(""), "\"\"");
}

#[test]
fn database_tags() {
    assert_eq!(DbType::from_name("Any"), Some(DbType::Any));
    assert_eq!(DbType::from_name("mssql"), Some(DbType::Mssql));
    assert_eq!(DbType::from_name("MySql"), Some(DbType::MySql));
    assert_eq!(DbType::from_name("postgres"), Some(DbType::Postgres));
    assert_eq!(DbType::from_name("Sqlite"), Some(DbType::Sqlite));
    assert_eq!(DbType::from_name("oracle"), None);
    assert_eq!(DbType::from_name("MYSQL"), None);
    assert_eq!(DbType::new(None), Some(DbType::Sqlite));
    assert_eq!(DbType::new(Some("postgres")), Some(DbType::Postgres));
    assert_eq!(DbType::Postgres.sqlx_db(), "::sqlx::Postgres");
}

#[test]
fn empty_field_list_is_refused() {
    assert_eq!(Config::new("Empty", vec![], None).unwrap_err(), SchemaError::NoFields);
}

#[test]
fn unknown_database_is_refused() {
    let r = Config::new("Record", vec![field("id")], Some("oracle"));
    assert_eq!(r.unwrap_err(), SchemaError::UnknownDatabase);
}

#[test]
fn two_soft_delete_fields_are_refused() {
    let r = Config::new("Record", vec![field("id"), soft_field("a", "NOW()"), soft_field("b", "1")], None);
    assert_eq!(r.unwrap_err(), SchemaError::SeveralSoftDeleteFields);
}

#[test]
fn model_schema_names() {
    let config = Config::new("UserProfile", vec![id_field("id", true), field("bio")], None).unwrap();
    assert_eq!(config.model_schema_ident, "USER_PROFILE_SCHEMA");
    assert_eq!(config.table_name, "user_profiles");
    let schema = build_static_model_schema(&config);
    assert_eq!(schema.table_name, "user_profiles");
    assert_eq!(schema.id_column, "id");
    assert_eq!(schema.columns, vec!["id".to_string(), "bio".to_string()]);
    assert_eq!(schema.model_schema_ident, "USER_PROFILE_SCHEMA");
    assert_eq!(schema.queries.delete_by_id_sql, r#"DELETE FROM "user_profiles" WHERE "user_profiles"."id" = ?"#);
}

#[test]
fn delete_ident_names_soft_delete_field() {
    assert_eq!(items().delete_ident(), Some("deleted_at".to_string()));
    assert_eq!(records().delete_ident(), None);
    assert_eq!(items().quote_ident("x"), "\"x\"");
}

#[test]
fn join_parts_separates_with_commas() {
    assert_eq!(join_parts(&vec![]), "");
    assert_eq!(join_parts(&vec!["a".to_string()]), "a");
    assert_eq!(join_parts(&vec!["a".to_string(), "b".to_string(), "c".to_string()]), "a, b, c");
}
