use sql_bridge::migrations::{Builder, Migration, MigrationKind, MigrationList, PendingMigrations};
use sql_bridge::registry::DbInstances;
use sql_bridge::row::{decode_row, decode_rows, Row};
use sql_bridge::value::{encode, encode_as_native, encode_params, decode, BoundParam, ColumnValue, DynValue};
use sql_bridge::{path_mapper, ConnectOptions, Error};

fn assert_dyn_eq(a: &DynValue, b: &DynValue) {
    let ok = match (a, b) {
        (DynValue::Null, DynValue::Null) => true,
        (DynValue::Bool(x), DynValue::Bool(y)) => x == y,
        (DynValue::Int(x), DynValue::Int(y)) => x == y,
        (DynValue::Real(x), DynValue::Real(y)) => x == y,
        (DynValue::Text(x), DynValue::Text(y)) => x == y,
        (DynValue::Blob(x), DynValue::Blob(y)) => x == y,
        _ => false,
    };
    assert!(ok, "dynamic values differ: {:?} vs {:?}", a, b);
}

fn round_trip(v: DynValue) {
    let back = decode(encode_as_native(v.clone())).expect("native column must decode");
    assert_dyn_eq(&v, &back);
}

#[test]
fn native_round_trip_all_kinds() {
    round_trip(DynValue::Null);
    round_trip(DynValue::Bool(true));
    round_trip(DynValue::Bool(false));
    round_trip(DynValue::Int(0));
    round_trip(DynValue::Int(-1));
    round_trip(DynValue::Int(1 << 53));
    round_trip(DynValue::Int(i64::MAX));
    round_trip(DynValue::Int(i64::MIN));
    round_trip(DynValue::Real(2.5f64.to_bits()));
    round_trip(DynValue::Real((-0.0f64).to_bits()));
    round_trip(DynValue::Real(f64::NAN.to_bits()));
    round_trip(DynValue::Text(String::from("hello")));
    round_trip(DynValue::Text(String::new()));
    round_trip(DynValue::Blob(vec![0u8, 255, 7]));
    round_trip(DynValue::Blob(Vec::new()));
}

#[test]
fn decode_widens_small_integers() {
    match decode(ColumnValue::Int2(-300)) {
        Ok(DynValue::Int(v)) => assert_eq!(v, -300),
        other => panic!("unexpected: {:?}", other),
    }
    match decode(ColumnValue::Int4(70_000)) {
        Ok(DynValue::Int(v)) => assert_eq!(v, 70_000),
        other => panic!("unexpected: {:?}", other),
    }
}

#[test]
fn decode_fails_closed_on_unsupported_type() {
    match decode(ColumnValue::Other(String::from("DATETIME"))) {
        Err(Error::UnsupportedDatatype(name)) => assert_eq!(name, "DATETIME"),
        other => panic!("unexpected: {:?}", other),
    }
}

#[test]
fn encode_follows_the_bind_rules() {
    assert!(matches!(encode(DynValue::Null), BoundParam::Null));
    match encode(DynValue::Text(String::from("abc"))) {
        BoundParam::Text(s) => assert_eq!(s, "abc"),
        other => panic!("unexpected: {:?}", other),
    }
    match encode(DynValue::Int(42)) {
        BoundParam::FloatFromInt(i) => assert_eq!(i, 42),
        other => panic!("unexpected: {:?}", other),
    }
    let bits = 1.5f64.to_bits();
    match encode(DynValue::Real(bits)) {
        BoundParam::FloatBits(b) => assert_eq!(b, bits),
        other => panic!("unexpected: {:?}", other),
    }
    match encode(DynValue::Bool(true)) {
        BoundParam::Native(DynValue::Bool(true)) => {}
        other => panic!("unexpected: {:?}", other),
    }
    match encode(DynValue::Blob(vec![1, 2])) {
        BoundParam::Native(DynValue::Blob(b)) => assert_eq!(b, vec![1, 2]),
        other => panic!("unexpected: {:?}", other),
    }
}

#[test]
fn encode_params_keeps_positional_order() {
    let out = encode_params(vec![
        DynValue::Int(1),
        DynValue::Text(String::from("two")),
        DynValue::Null,
    ]);
    assert_eq!(out.len(), 3);
    assert!(matches!(out[0], BoundParam::FloatFromInt(1)));
    match &out[1] {
        BoundParam::Text(s) => assert_eq!(s, "two"),
        other => panic!("unexpected: {:?}", other),
    }
    assert!(matches!(out[2], BoundParam::Null));
}

#[test]
fn row_preserves_column_order_and_looks_up_by_name() {
    let row = decode_row(vec![
        (String::from("b"), ColumnValue::Int8(2)),
        (String::from("a"), ColumnValue::Int8(1)),
    ])
    .expect("both columns are supported");
    assert_eq!(row.len(), 2);
    let (first_name, first_value) = row.entry_at(0);
    assert_eq!(first_name, "b");
    assert_dyn_eq(first_value, &DynValue::Int(2));
    let (second_name, _) = row.entry_at(1);
    assert_eq!(second_name, "a");
    assert_dyn_eq(row.get("a").expect("a is present"), &DynValue::Int(1));
    assert!(row.get("missing").is_none());
}

#[test]
fn row_insert_replaces_in_place() {
    let mut row = Row::new();
    row.insert(String::from("x"), DynValue::Int(1));
    row.insert(String::from("y"), DynValue::Int(2));
    row.insert(String::from("x"), DynValue::Int(9));
    assert_eq!(row.len(), 2);
    let (name, value) = row.entry_at(0);
    assert_eq!(name, "x");
    assert_dyn_eq(value, &DynValue::Int(9));
}

#[test]
fn one_bad_column_fails_the_whole_row() {
    let r = decode_row(vec![
        (String::from("good"), ColumnValue::Int8(1)),
        (String::from("bad"), ColumnValue::Other(String::from("JSONB"))),
        (String::from("later"), ColumnValue::Other(String::from("DATE"))),
    ]);
    match r {
        Err(Error::UnsupportedDatatype(name)) => assert_eq!(name, "JSONB"),
        other => panic!("unexpected: {:?}", other),
    }
}

#[test]
fn one_bad_row_fails_the_whole_fetch() {
    let rows = vec![
        vec![(String::from("x"), ColumnValue::Int8(1))],
        vec![(String::from("x"), ColumnValue::Other(String::from("TIME")))],
    ];
    match decode_rows(rows) {
        Err(Error::UnsupportedDatatype(name)) => assert_eq!(name, "TIME"),
        other => panic!("unexpected: {:?}", other),
    }
    let good = decode_rows(vec![
        vec![(String::from("x"), ColumnValue::Int8(1))],
        vec![(String::from("x"), ColumnValue::Int8(2))],
    ])
    .expect("all columns supported");
    assert_eq!(good.len(), 2);
    assert_dyn_eq(good[1].get("x").unwrap(), &DynValue::Int(2));
}

fn up(version: i64, sql: &'static str) -> Migration {
    Migration { version, description: "test step", sql, kind: MigrationKind::Up }
}

#[test]
fn resolve_keeps_only_forward_migrations_in_ascending_order() {
    let list = MigrationList(vec![
        Migration { version: 2, description: "second", sql: "B", kind: MigrationKind::Up },
        Migration { version: 1, description: "rollback", sql: "R", kind: MigrationKind::Down },
        Migration { version: 1, description: "first", sql: "A", kind: MigrationKind::Up },
    ]);
    let plan = list.resolve();
    assert_eq!(plan.len(), 2);
    assert_eq!(plan[0].version, 1);
    assert_eq!(plan[0].sql, "A");
    assert_eq!(plan[1].version, 2);
    assert_eq!(plan[1].sql, "B");
}

#[test]
fn pending_set_is_taken_exactly_once() {
    let mut pending = PendingMigrations::new();
    pending.register(String::from("sqlite:a.db"), MigrationList(vec![up(1, "A")]));
    assert_eq!(pending.len(), 1);
    let first = pending.take("sqlite:a.db");
    assert!(first.is_some());
    assert_eq!(first.unwrap().0.len(), 1);
    assert_eq!(pending.len(), 0);
    let second = pending.take("sqlite:a.db");
    assert!(second.is_none(), "a taken set must stay gone");
}

#[test]
fn builder_gathers_migrations_per_identifier() {
    let builder = Builder::default()
        .add_migrations("sqlite:a.db", vec![up(1, "A")])
        .add_migrations("sqlite:b.db", vec![up(1, "B1"), up(2, "B2")]);
    let mut pending = builder.into_pending();
    assert_eq!(pending.len(), 2);
    let b = pending.take("sqlite:b.db").expect("registered");
    assert_eq!(b.0.len(), 2);
    assert!(pending.take("sqlite:missing.db").is_none());
}

#[test]
fn lookup_of_never_loaded_identifier_fails() {
    let instances: DbInstances<u64> = DbInstances::new();
    match instances.lookup("sqlite:nope.db") {
        Err(Error::DatabaseNotLoaded(name)) => assert_eq!(name, "sqlite:nope.db"),
        other => panic!("unexpected: {:?}", other),
    }
}

#[test]
fn registry_insert_lookup_remove() {
    let mut instances: DbInstances<u64> = DbInstances::new();
    instances.insert(String::from("sqlite:a.db"), 11);
    instances.insert(String::from("sqlite:b.db"), 22);
    assert_eq!(instances.len(), 2);
    assert_eq!(*instances.lookup("sqlite:a.db").unwrap(), 11);
    assert_eq!(*instances.lookup("sqlite:b.db").unwrap(), 22);
    instances.insert(String::from("sqlite:a.db"), 33);
    assert_eq!(instances.len(), 2, "insert replaces, never duplicates");
    assert_eq!(*instances.lookup("sqlite:a.db").unwrap(), 33);
    let removed = instances.remove("sqlite:a.db").unwrap();
    assert_eq!(removed, 33);
    match instances.remove("sqlite:a.db") {
        Err(Error::DatabaseNotLoaded(name)) => assert_eq!(name, "sqlite:a.db"),
        other => panic!("unexpected: {:?}", other),
    }
}

#[test]
fn close_all_unloads_every_identifier() {
    let mut instances: DbInstances<u64> = DbInstances::new();
    instances.insert(String::from("sqlite:a.db"), 1);
    instances.insert(String::from("sqlite:b.db"), 2);
    let drained = instances.remove_all();
    assert_eq!(drained.len(), 2);
    assert_eq!(drained[0].0, "sqlite:a.db");
    assert_eq!(drained[1].0, "sqlite:b.db");
    assert_eq!(instances.len(), 0);
    assert!(matches!(
        instances.lookup("sqlite:a.db"),
        Err(Error::DatabaseNotLoaded(_))
    ));
    assert!(matches!(
        instances.lookup("sqlite:b.db"),
        Err(Error::DatabaseNotLoaded(_))
    ));
}

#[test]
fn path_mapper_scopes_the_url_to_the_directory() {
    assert_eq!(
        path_mapper("/data/app", "sqlite:test.db").unwrap(),
        "sqlite:/data/app/test.db"
    );
    assert_eq!(
        path_mapper("/data/app/", "sqlite:test.db").unwrap(),
        "sqlite:/data/app/test.db"
    );
    assert_eq!(
        path_mapper("/data", "sqlite:nested/dir.db").unwrap(),
        "sqlite:/data/nested/dir.db"
    );
}

#[test]
fn path_mapper_rejects_a_url_without_scheme() {
    match path_mapper("/data", "no-scheme-here") {
        Err(Error::InvalidDbUrl(url)) => assert_eq!(url, "no-scheme-here"),
        other => panic!("unexpected: {:?}", other),
    }
}

#[test]
fn connect_options_carry_url_and_extensions() {
    let plain = ConnectOptions::from_url(String::from("sqlite:test.db"));
    assert_eq!(plain.db_url, "sqlite:test.db");
    assert!(plain.extensions().is_none());
    let with_ext = ConnectOptions::new(
        String::from("sqlite:test.db"),
        Some(vec![String::from("vector")]),
    );
    assert_eq!(with_ext.extensions().as_ref().unwrap()[0], "vector");
}

#[test]
fn error_messages_name_their_subject() {
    assert_eq!(
        Error::DatabaseNotLoaded(String::from("db1")).message(),
        "database db1 not loaded"
    );
    assert_eq!(
        Error::InvalidDbUrl(String::from("x")).message(),
        "invalid connection url: x"
    );
    assert_eq!(
        Error::UnsupportedDatatype(String::from("DATE")).message(),
        "unsupported datatype: DATE"
    );
    assert_eq!(Error::Sql(String::from("boom")).message(), "boom");
    assert_eq!(Error::Migration(String::from("bad step")).message(), "bad step");
}
