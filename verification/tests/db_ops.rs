use script_server::db::{
    cell_of_probe, classify_probe, db_failure_json, db_request, error_json, is_select,
    rows_affected_json, rows_json, CellProbe, DbAction, DbCell, DbParam, ParamProbe,
};
use sqlx::{Column, Row};

fn params(json: &str) -> serde_json::Value {
    serde_json::from_str(json).unwrap()
}

#[test]
fn unsupported_parameter_type_is_reported_not_thrown() {
    let v = params("[{\"nested\":true}]");
    match db_request("SELECT 1", &v) {
        DbAction::Reply(s) => {
            assert_eq!(s, "{\"error\":\"Unsupported parameter type\",\"success\":false}");
        }
        _ => panic!("expected an immediate reply"),
    }
}

#[test]
fn parameters_must_be_an_array() {
    let v = params("{\"a\":1}");
    match db_request("SELECT 1", &v) {
        DbAction::Reply(s) => {
            assert_eq!(s, "{\"error\":\"params must be an array\",\"success\":false}");
        }
        _ => panic!("expected an immediate reply"),
    }
}

#[test]
fn parameters_are_typed_by_shape() {
    let v = params("[\"x\", 1, 2.5, true, null, 9223372036854775808]");
    match db_request("select * from t", &v) {
        DbAction::RunSelect(ps) => {
            assert_eq!(ps.len(), 6);
            assert!(matches!(&ps[0], DbParam::Text(t) if t == "x"));
            assert!(matches!(ps[1], DbParam::Int(1)));
            assert!(matches!(&ps[2], DbParam::FloatText(f) if f == "2.5"));
            assert!(matches!(ps[3], DbParam::Bool(true)));
            assert!(matches!(ps[4], DbParam::Null));
            // An integer beyond i64 travels as its own JSON text, like a
            // float, and binds as REAL.
            assert!(matches!(&ps[5], DbParam::FloatText(f) if f == "9223372036854775808"));
        }
        _ => panic!("expected typed parameters"),
    }
    match db_request("INSERT INTO t VALUES (1)", &params("[]")) {
        DbAction::RunExecute(ps) => assert_eq!(ps.len(), 0),
        _ => panic!("expected an execute plan"),
    }
}

#[test]
fn probe_order_picks_the_first_answer() {
    let p = ParamProbe {
        text: None,
        int64: None,
        is_number: true,
        float_text: None,
        boolean: None,
        null: false,
    };
    assert_eq!(classify_probe(p).unwrap_err(), "Invalid number type");

    let c = cell_of_probe(CellProbe {
        text: None,
        int64: Some(7),
        float_text: Some("7.0".to_string()),
        boolean: None,
        nullable_text: None,
    });
    assert!(matches!(c, DbCell::Int(7)));

    let c = cell_of_probe(CellProbe {
        text: None,
        int64: None,
        float_text: None,
        boolean: None,
        nullable_text: Some(None),
    });
    assert!(matches!(c, DbCell::Null));
}

#[test]
fn select_classification_trims_and_ignores_case() {
    assert!(is_select("SELECT 1"));
    assert!(is_select("   select * from users  "));
    assert!(is_select("\tSeLeCt x"));
    assert!(!is_select("INSERT INTO t VALUES (1)"));
    assert!(!is_select("  update t set a = 1"));
    assert!(!is_select(""));
}

#[test]
fn result_objects_read_exactly_as_rendered_by_serde() {
    assert_eq!(rows_affected_json(1), "{\"rowsAffected\":1,\"success\":true}");
    assert_eq!(
        error_json("boom"),
        "{\"error\":\"boom\",\"success\":false}"
    );
    assert_eq!(
        db_failure_json("no such table: users"),
        "{\"error\":\"Database query failed: no such table: users\",\"success\":false}"
    );

    // Escaping agrees with serde_json on an awkward message.
    let msg = "a\"b\\c\nd\te\u{8}\u{c}\r\u{1f}";
    let mut obj = serde_json::Map::new();
    obj.insert("error".to_string(), serde_json::Value::String(msg.to_string()));
    obj.insert("success".to_string(), serde_json::Value::Bool(false));
    let expected = serde_json::Value::Object(obj).to_string();
    assert_eq!(error_json(msg), expected);
}

#[test]
fn rows_render_as_an_array_of_objects() {
    let rows = vec![vec![
        ("id".to_string(), DbCell::Int(1)),
        ("name".to_string(), DbCell::Text("Dana".to_string())),
        ("score".to_string(), DbCell::FloatText("2.5".to_string())),
        ("active".to_string(), DbCell::Bool(true)),
        ("note".to_string(), DbCell::Null),
    ]];
    assert_eq!(
        rows_json(&rows),
        "[{\"id\":1,\"name\":\"Dana\",\"score\":2.5,\"active\":true,\"note\":null}]"
    );
    assert_eq!(rows_json(&Vec::new()), "[]");
}

fn probe_row(row: &sqlx::sqlite::SqliteRow) -> Vec<(String, DbCell)> {
    let mut out = Vec::new();
    for (idx, column) in row.columns().iter().enumerate() {
        let probe = CellProbe {
            text: row.try_get::<String, _>(idx).ok(),
            int64: row.try_get::<i64, _>(idx).ok(),
            float_text: row.try_get::<f64, _>(idx).ok().map(|f| {
                serde_json::Value::Number(
                    serde_json::Number::from_f64(f).unwrap_or_else(|| 0.into()),
                )
                .to_string()
            }),
            boolean: row.try_get::<bool, _>(idx).ok(),
            nullable_text: row.try_get::<Option<String>, _>(idx).ok(),
        };
        out.push((column.name().to_string(), cell_of_probe(probe)));
    }
    out
}

#[test]
fn seeded_sqlite_round_trip_matches_the_contracted_shapes() {
    let rt = tokio::runtime::Builder::new_current_thread()
        .enable_all()
        .build()
        .unwrap();
    rt.block_on(async {
        let pool = sqlx::sqlite::SqlitePool::connect("sqlite::memory:").await.unwrap();
        sqlx::query(
            "CREATE TABLE users (id INTEGER PRIMARY KEY AUTOINCREMENT, name TEXT NOT NULL, email TEXT NOT NULL)",
        )
        .execute(&pool)
        .await
        .unwrap();

        // The insert goes through the typed plan and reports one row.
        let insert_params = params("[\"Dana\",\"d@x.com\"]");
        let reply = match db_request("INSERT INTO users(name,email) VALUES (?,?)", &insert_params)
        {
            DbAction::RunExecute(ps) => {
                let mut q = sqlx::query("INSERT INTO users(name,email) VALUES (?,?)");
                for p in ps {
                    q = match p {
                        DbParam::Text(s) => q.bind(s),
                        DbParam::Int(i) => q.bind(i),
                        DbParam::FloatText(f) => q.bind(f.parse::<f64>().unwrap()),
                        DbParam::Bool(b) => q.bind(b),
                        DbParam::Null => q.bind(Option::<String>::None),
                    };
                }
                let done = q.execute(&pool).await.unwrap();
                rows_affected_json(done.rows_affected())
            }
            _ => panic!("expected an execute plan"),
        };
        assert_eq!(reply, "{\"rowsAffected\":1,\"success\":true}");

        // The select fetches the one row with exactly the table's columns,
        // each correctly typed.
        let select_params = params("[1]");
        let reply = match db_request("SELECT * FROM users WHERE id = ?", &select_params) {
            DbAction::RunSelect(ps) => {
                let mut q = sqlx::query("SELECT * FROM users WHERE id = ?");
                for p in ps {
                    q = match p {
                        DbParam::Text(s) => q.bind(s),
                        DbParam::Int(i) => q.bind(i),
                        DbParam::FloatText(f) => q.bind(f.parse::<f64>().unwrap()),
                        DbParam::Bool(b) => q.bind(b),
                        DbParam::Null => q.bind(Option::<String>::None),
                    };
                }
                let rows = q.fetch_all(&pool).await.unwrap();
                let cells: Vec<Vec<(String, DbCell)>> = rows.iter().map(probe_row).collect();
                rows_json(&cells)
            }
            _ => panic!("expected a select plan"),
        };
        assert_eq!(reply, "[{\"id\":1,\"name\":\"Dana\",\"email\":\"d@x.com\"}]");
    });
}
