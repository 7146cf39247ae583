use hell_orm::builder::InsertBuilder;
use hell_orm::column::{derive_column, FieldDecl, SqlType, TypeExpr};
use hell_orm::connection::Store;
use hell_orm::database::Database;
use hell_orm::error::Error;
use hell_orm::model::{table_name, ModelDescriptor};
use hell_orm::schema::{Schema, SchemaHas};
use hell_orm::value::Value;

fn named(name: &str) -> TypeExpr {
    TypeExpr::Path { name: name.to_string(), args: Vec::new() }
}

fn optional(inner: TypeExpr) -> TypeExpr {
    TypeExpr::Path { name: "Option".to_string(), args: vec![inner] }
}

fn field(name: &str, ty: TypeExpr, primary_key: bool, unique: bool, auto_increment: bool) -> FieldDecl {
    FieldDecl { name: name.to_string(), ty, primary_key, unique, auto_increment }
}

fn user_model() -> ModelDescriptor {
    ModelDescriptor::new(
        "User",
        Some("users"),
        &vec![
            field("id", named("usize"), true, false, false),
            field("name", named("String"), false, true, false),
        ],
    )
    .unwrap()
}

fn post_model() -> ModelDescriptor {
    ModelDescriptor::new(
        "Post",
        Some("posts"),
        &vec![
            field("id", named("usize"), true, false, false),
            field("title", named("String"), false, false, false),
            field("body", optional(named("String")), false, false, false),
        ],
    )
    .unwrap()
}

fn table_sql(store: &Store, table: &str) -> Option<String> {
    store
        .handle()
        .query_row(
            "SELECT sql FROM sqlite_master WHERE type = 'table' AND name = ?1",
            [table],
            |row| row.get::<_, String>(0),
        )
        .ok()
}

fn table_count(store: &Store) -> i64 {
    store
        .handle()
        .query_row("SELECT count(*) FROM sqlite_master WHERE type = 'table'", [], |row| row.get(0))
        .unwrap()
}

#[test]
fn scenario_a_opening_creates_the_users_table() {
    let model = user_model();
    assert_eq!(
        model.create_table_sql(),
        "CREATE TABLE IF NOT EXISTS users(id INTEGER NOT NULL PRIMARY KEY, name TEXT NOT NULL UNIQUE)"
    );
    let db = Database::open(":memory:", Schema::new(vec![user_model()]).unwrap()).unwrap();
    assert_eq!(table_count(db.store()), 1);
    assert_eq!(
        table_sql(db.store(), "users").unwrap(),
        "CREATE TABLE users(id INTEGER NOT NULL PRIMARY KEY, name TEXT NOT NULL UNIQUE)"
    );
}

#[test]
fn scenario_b_finishing_without_the_primary_key_is_refused() {
    let mut db = Database::open(":memory:", Schema::new(vec![user_model()]).unwrap()).unwrap();
    let model = user_model();
    let builder = InsertBuilder::new(&model).set("name", Value::Text("a".to_string())).unwrap();
    assert!(!builder.is_complete());
    assert!(matches!(builder.finish(&mut db), Err(Error::IncompleteRecord)));
    let count: i64 = db
        .store()
        .handle()
        .query_row("SELECT count(*) FROM users", [], |row| row.get(0))
        .unwrap();
    assert_eq!(count, 0);
}

#[test]
fn scenario_c_second_insert_with_same_key_fails() {
    let mut db = Database::open(":memory:", Schema::new(vec![user_model()]).unwrap()).unwrap();
    let model = user_model();
    let first = InsertBuilder::new(&model)
        .set("id", Value::Integer(1))
        .unwrap()
        .set("name", Value::Text("a".to_string()))
        .unwrap();
    assert_eq!(first.finish(&mut db).unwrap(), 1);
    let second = InsertBuilder::new(&model)
        .set("id", Value::Integer(1))
        .unwrap()
        .set("name", Value::Text("b".to_string()))
        .unwrap();
    assert!(matches!(second.finish(&mut db), Err(Error::InsertError(_))));
    let name: String = db
        .store()
        .handle()
        .query_row("SELECT name FROM users WHERE id = 1", [], |row| row.get(0))
        .unwrap();
    assert_eq!(name, "a");
    assert_eq!(table_count(db.store()), 1);
}

#[test]
fn scenario_d_failed_second_table_keeps_the_first() {
    let broken = ModelDescriptor::new(
        "Tag",
        Some("tags"),
        &vec![field("code", named("String"), true, false, true)],
    )
    .unwrap();
    let schema = Schema::new(vec![user_model(), broken]).unwrap();
    let mut store = Store::open(":memory:").unwrap();
    assert!(matches!(schema.create(&mut store), Err(Error::SchemaError(_))));
    assert!(table_sql(&store, "users").is_some());
    assert!(table_sql(&store, "tags").is_none());
    assert!(matches!(
        Database::open(":memory:", Schema::new(vec![user_model(), post_model()]).unwrap()),
        Ok(_)
    ));
}

#[test]
fn create_twice_is_a_no_op() {
    let schema = Schema::new(vec![user_model(), post_model()]).unwrap();
    let mut store = Store::open(":memory:").unwrap();
    assert!(schema.create(&mut store).is_ok());
    let users = table_sql(&store, "users").unwrap();
    let posts = table_sql(&store, "posts").unwrap();
    assert!(schema.create(&mut store).is_ok());
    assert_eq!(table_count(&store), 2);
    assert_eq!(table_sql(&store, "users").unwrap(), users);
    assert_eq!(table_sql(&store, "posts").unwrap(), posts);
}

#[test]
fn create_statements_follow_declaration_order() {
    let schema = Schema::new(vec![user_model(), post_model()]).unwrap();
    assert_eq!(
        schema.statements(),
        vec![
            "CREATE TABLE IF NOT EXISTS users(id INTEGER NOT NULL PRIMARY KEY, name TEXT NOT NULL UNIQUE)".to_string(),
            "CREATE TABLE IF NOT EXISTS posts(id INTEGER NOT NULL PRIMARY KEY, title TEXT NOT NULL, body TEXT)".to_string(),
        ]
    );
}

#[test]
fn nullable_field_has_no_not_null() {
    let c = derive_column(&field("bio", optional(named("String")), false, false, false)).unwrap();
    assert!(c.nullable);
    assert_eq!(c.sql_type, SqlType::Text);
    assert!(!c.is_mandatory());
    assert_eq!(c.definition_sql(), "bio TEXT");
    let d = derive_column(&field("age", named("i32"), false, false, false)).unwrap();
    assert!(!d.nullable);
    assert!(d.is_mandatory());
    assert_eq!(d.definition_sql(), "age INTEGER NOT NULL");
}

#[test]
fn auto_increment_implies_primary_key() {
    let c = derive_column(&field("id", named("i64"), false, false, true)).unwrap();
    assert!(c.is_primary_key);
    assert!(c.is_auto_increment);
    assert!(!c.is_mandatory());
    assert_eq!(c.definition_sql(), "id INTEGER NOT NULL PRIMARY KEY AUTOINCREMENT");
    let d = derive_column(&field("n", optional(named("u8")), true, true, true)).unwrap();
    assert_eq!(d.definition_sql(), "n INTEGER PRIMARY KEY AUTOINCREMENT UNIQUE");
}

#[test]
fn text_and_integer_types() {
    let s = derive_column(&field("s", TypeExpr::Reference(Box::new(named("str"))), false, false, false)).unwrap();
    assert_eq!(s.sql_type, SqlType::Text);
    for name in ["i8", "i16", "i32", "i64", "i128", "isize", "u8", "u16", "u32", "u64", "u128", "usize"] {
        let c = derive_column(&field("n", named(name), false, false, false)).unwrap();
        assert_eq!(c.sql_type, SqlType::Integer);
    }
    let o = derive_column(&field("o", optional(named("u64")), false, false, false)).unwrap();
    assert_eq!(o.sql_type, SqlType::Integer);
    assert!(o.nullable);
}

#[test]
fn unsupported_types_are_rejected() {
    for ty in [
        named("f64"),
        TypeExpr::Other,
        TypeExpr::Path { name: "Vec".to_string(), args: vec![named("u8")] },
        optional(optional(named("String"))),
        TypeExpr::Reference(Box::new(named("String"))),
    ] {
        match derive_column(&field("x", ty, false, false, false)) {
            Err(Error::UnsupportedFieldType(name)) => assert_eq!(name, "x"),
            other => panic!("unexpected {:?}", other),
        }
    }
    match ModelDescriptor::new("Odd", None, &vec![field("ok", named("String"), false, false, false), field("bad", named("bool"), false, false, false)]) {
        Err(Error::UnsupportedFieldType(name)) => assert_eq!(name, "bad"),
        other => panic!("unexpected {:?}", other),
    }
}

#[test]
fn duplicate_names_are_rejected() {
    match ModelDescriptor::new("Dup", None, &vec![field("a", named("i64"), false, false, false), field("a", named("String"), false, false, false)]) {
        Err(Error::DuplicateColumn(name)) => assert_eq!(name, "a"),
        other => panic!("unexpected {:?}", other),
    }
    match Schema::new(vec![user_model(), post_model(), user_model()]) {
        Err(Error::DuplicateTable(name)) => assert_eq!(name, "users"),
        other => panic!("unexpected {:?}", other.map(|_| ())),
    }
}

#[test]
fn table_name_defaults_to_lower_case() {
    let m = ModelDescriptor::new("UserAccount", None, &vec![field("id", named("i64"), true, false, false)]).unwrap();
    assert_eq!(m.table_name(), "useraccount");
    assert_eq!(table_name("Post", None), "post");
    assert_eq!(table_name("Post", Some("articles")), "articles");
    assert_eq!(m.columns().len(), 1);
}

#[test]
fn setters_commute() {
    let model = user_model();
    let mut db = Database::open(":memory:", Schema::new(vec![user_model()]).unwrap()).unwrap();
    let a = InsertBuilder::new(&model)
        .set("name", Value::Text("x".to_string()))
        .unwrap()
        .set("id", Value::Integer(7))
        .unwrap();
    assert!(a.is_complete());
    assert_eq!(a.finish(&mut db).unwrap(), 1);
    let b = InsertBuilder::new(&model)
        .set("id", Value::Integer(8))
        .unwrap()
        .set("name", Value::Text("y".to_string()))
        .unwrap();
    assert!(b.is_complete());
    assert_eq!(b.finish(&mut db).unwrap(), 1);
}

#[test]
fn repeated_set_keeps_the_last_value() {
    let model = user_model();
    let record = InsertBuilder::new(&model)
        .set("name", Value::Text("a".to_string()))
        .unwrap()
        .set("id", Value::Integer(1))
        .unwrap()
        .set("name", Value::Text("b".to_string()))
        .unwrap()
        .build()
        .unwrap();
    assert_eq!(record.columns(), &vec!["id".to_string(), "name".to_string()]);
    assert_eq!(record.values(), &vec![Value::Integer(1), Value::Text("b".to_string())]);
    assert_eq!(record.sql(), "INSERT INTO users (id,name) VALUES (?1, ?2)");
}

#[test]
fn optional_columns_are_left_out_unless_set() {
    let model = post_model();
    let record = InsertBuilder::new(&model)
        .set("title", Value::Text("t".to_string()))
        .unwrap()
        .set("id", Value::Integer(3))
        .unwrap()
        .build()
        .unwrap();
    assert_eq!(record.sql(), "INSERT INTO posts (id,title) VALUES (?1, ?2)");
    let with_body = InsertBuilder::new(&model)
        .set("id", Value::Integer(4))
        .unwrap()
        .set("title", Value::Text("t".to_string()))
        .unwrap()
        .set("body", Value::Null)
        .unwrap();
    let mut db = Database::open(":memory:", Schema::new(vec![post_model()]).unwrap()).unwrap();
    assert_eq!(with_body.finish(&mut db).unwrap(), 1);
    let incomplete = InsertBuilder::new(&model).set("body", Value::Text("b".to_string())).unwrap();
    assert!(matches!(incomplete.build(), Err(Error::IncompleteRecord)));
}

#[test]
fn placeholders_count_past_nine() {
    let fields: Vec<FieldDecl> = (0..12).map(|i| field(&format!("c{}", i), named("i64"), false, false, false)).collect();
    let model = ModelDescriptor::new("Wide", None, &fields).unwrap();
    let mut b = InsertBuilder::new(&model);
    for i in 0..12 {
        b = b.set(&format!("c{}", i), Value::Integer(i)).unwrap();
    }
    let record = b.build().unwrap();
    assert_eq!(
        record.sql(),
        "INSERT INTO wide (c0,c1,c2,c3,c4,c5,c6,c7,c8,c9,c10,c11) VALUES (?1, ?2, ?3, ?4, ?5, ?6, ?7, ?8, ?9, ?10, ?11, ?12)"
    );
    let mut db = Database::open(":memory:", Schema::new(vec![ModelDescriptor::new("Wide", None, &fields).unwrap()]).unwrap()).unwrap();
    assert_eq!(db.insert(&record).unwrap(), 1);
}

#[test]
fn unknown_column_is_rejected() {
    let model = user_model();
    match InsertBuilder::new(&model).set("nope", Value::Integer(1)) {
        Err(Error::UnknownColumn(name)) => assert_eq!(name, "nope"),
        _ => panic!("expected UnknownColumn"),
    }
}

#[test]
fn model_outside_schema_is_refused() {
    let mut db = Database::open(":memory:", Schema::new(vec![user_model()]).unwrap()).unwrap();
    let posts = post_model();
    assert!(!db.schema().has(&posts));
    assert!(db.schema().has(&user_model()));
    let record = InsertBuilder::new(&posts)
        .set("id", Value::Integer(1))
        .unwrap()
        .set("title", Value::Text("t".to_string()))
        .unwrap();
    assert!(matches!(record.finish(&mut db), Err(Error::SchemaMismatch)));
}

#[test]
fn missing_table_gives_statement_error() {
    let mut db = Database::open(":memory:", Schema::new(vec![user_model()]).unwrap()).unwrap();
    db.store().handle().execute("DROP TABLE users", []).unwrap();
    let model = user_model();
    let record = InsertBuilder::new(&model)
        .set("id", Value::Integer(1))
        .unwrap()
        .set("name", Value::Text("a".to_string()))
        .unwrap();
    assert!(matches!(record.finish(&mut db), Err(Error::StatementError(_))));
}

#[test]
fn null_or_wrong_kind_is_refused() {
    let model = user_model();
    match InsertBuilder::new(&model).set("name", Value::Null) {
        Err(Error::TypeMismatch(name)) => assert_eq!(name, "name"),
        _ => panic!("expected TypeMismatch for NULL"),
    }
    match InsertBuilder::new(&model).set("id", Value::Text("1".to_string())) {
        Err(Error::TypeMismatch(name)) => assert_eq!(name, "id"),
        _ => panic!("expected TypeMismatch for text in an integer column"),
    }
    match InsertBuilder::new(&model).set("name", Value::Integer(3)) {
        Err(Error::TypeMismatch(name)) => assert_eq!(name, "name"),
        _ => panic!("expected TypeMismatch for an integer in a text column"),
    }
    let posts = post_model();
    assert!(InsertBuilder::new(&posts).set("body", Value::Null).is_ok());
}

#[test]
fn failed_execution_after_prepare_is_an_insert_error() {
    let mut db = Database::open(":memory:", Schema::new(vec![user_model()]).unwrap()).unwrap();
    let model = user_model();
    let first = InsertBuilder::new(&model)
        .set("id", Value::Integer(1))
        .unwrap()
        .set("name", Value::Text("same".to_string()))
        .unwrap();
    assert_eq!(first.finish(&mut db).unwrap(), 1);
    let second = InsertBuilder::new(&model)
        .set("id", Value::Integer(2))
        .unwrap()
        .set("name", Value::Text("same".to_string()))
        .unwrap()
        .build()
        .unwrap();
    assert!(matches!(db.insert(&second), Err(Error::InsertError(_))));
    let rows: i64 = db
        .store()
        .handle()
        .query_row("SELECT count(*) FROM users", [], |row| row.get(0))
        .unwrap();
    assert_eq!(rows, 1);
}

#[test]
fn distinct_setters_in_any_order_give_the_same_record() {
    let model = post_model();
    let a = InsertBuilder::new(&model)
        .set("body", Value::Text("b".to_string()))
        .unwrap()
        .set("id", Value::Integer(5))
        .unwrap()
        .set("title", Value::Text("t".to_string()))
        .unwrap()
        .build()
        .unwrap();
    let b = InsertBuilder::new(&model)
        .set("title", Value::Text("t".to_string()))
        .unwrap()
        .set("id", Value::Integer(5))
        .unwrap()
        .set("body", Value::Text("b".to_string()))
        .unwrap()
        .build()
        .unwrap();
    assert_eq!(a.columns(), b.columns());
    assert_eq!(a.values(), b.values());
    assert_eq!(a.sql(), b.sql());
}

#[test]
fn unopenable_path_gives_open_error() {
    let r = Store::open("/nonexistent-directory/sub/db.sqlite");
    assert!(matches!(r, Err(Error::OpenError(_))));
}

#[test]
fn error_messages() {
    assert_eq!(Error::InsertError("boom".to_string()).message(), "failed to insert: boom");
    assert_eq!(Error::OpenError("x".to_string()).message(), "failed to open: x");
    assert_eq!(Error::TypeMismatch("c".to_string()).message(), "value does not suit column: c");
    assert_eq!(Error::SchemaError("y".to_string()).message(), "failed to create schema: y");
    assert_eq!(Error::StatementError("z".to_string()).message(), "failed to prepare statement: z");
    assert_eq!(
        Error::IncompleteRecord.message(),
        "incomplete record: a mandatory column was not supplied"
    );
}
