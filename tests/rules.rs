use tablespace::json::{get_member, Json, JsonNumber};
use tablespace::path::{folder, is_space, new_data_path, schema_path_for, trim, PathError};
use tablespace::rows::{normalise_row, normalise_rows};
use tablespace::save::{prepare_save, save_at};
use tablespace::schema::{default_schema, seed_data, seed_schema, table_name_for, update_schema_metadata};
use tablespace::watch::{notification_for, EventKind, Notification, WatchEvent};
use tablespace::workspace::{rows_of, write_plan, Workspace, WorkspaceError, WorkspaceSlot};

fn s(v: &str) -> String {
    v.to_string()
}

fn text(v: &str) -> Json {
    Json::Text(s(v))
}

fn obj(members: Vec<(&str, Json)>) -> Json {
    Json::Object(members.into_iter().map(|(k, v)| (s(k), v)).collect())
}

fn field<'a>(j: &'a Json, key: &str) -> Option<&'a Json> {
    match j {
        Json::Object(m) => get_member(m, key),
        _ => None,
    }
}

fn text_of(j: &Json, key: &str) -> String {
    match field(j, key) {
        Some(Json::Text(t)) => t.clone(),
        other => panic!("{key} is not text: {other:?}"),
    }
}

fn uint(n: u64) -> Json {
    Json::Number(JsonNumber::PosInt(n))
}

fn workspace(path: &str) -> Workspace {
    match Workspace::open(path) {
        Ok(w) => w,
        Err(e) => panic!("cannot open {path}: {e:?}"),
    }
}

#[test]
fn schema_path_is_derived_from_data_path() {
    assert_eq!(schema_path_for("/x/orders.json"), Ok(s("/x/orders.schema.json")));
    assert_eq!(schema_path_for("orders.json"), Ok(s("orders.schema.json")));
    assert_eq!(schema_path_for("/x/orders"), Ok(s("/x/orders.schema.json")));
    assert_eq!(schema_path_for("/x/a.b.json"), Ok(s("/x/a.b.schema.json")));
    assert_eq!(schema_path_for("/x/.hidden"), Ok(s("/x/.hidden.schema.json")));
    assert_eq!(schema_path_for("/orders.json"), Ok(s("/orders.schema.json")));
}

#[test]
fn schema_path_skips_trailing_separators_and_dots() {
    assert_eq!(schema_path_for("/x/orders.json/"), Ok(s("/x/orders.schema.json")));
    assert_eq!(schema_path_for("/x/orders.json/."), Ok(s("/x/orders.schema.json")));
    assert_eq!(schema_path_for("/x/"), Ok(s("/x.schema.json")));
    assert_eq!(schema_path_for("/x/./orders.json"), Ok(s("/x/orders.schema.json")));
    assert_eq!(schema_path_for("a//b.json"), Ok(s("a/b.schema.json")));
}

#[test]
fn schema_path_needs_a_file_name() {
    assert_eq!(schema_path_for("/"), Err(PathError::NoDataFileName));
    assert_eq!(schema_path_for(""), Err(PathError::NoDataFileName));
    assert_eq!(schema_path_for("./"), Err(PathError::NoDataFileName));
    assert_eq!(schema_path_for("/x/.."), Err(PathError::NoDataFileName));
    assert_eq!(schema_path_for("."), Err(PathError::NoDataFileName));
    assert!(matches!(
        Workspace::open("/"),
        Err(WorkspaceError::Path(PathError::NoDataFileName))
    ));
}

#[test]
fn folder_of_data_path() {
    assert_eq!(folder("/x/orders.json"), "/x");
    assert_eq!(folder("orders.json"), "");
    assert_eq!(folder("/orders.json"), "/");
    assert_eq!(folder("/x/orders.json/"), "/x");
    assert_eq!(folder("/x//orders.json"), "/x");
}

#[test]
fn trim_removes_unicode_white_space() {
    assert_eq!(trim("  a b\t\n"), "a b");
    assert_eq!(trim("\u{3000}q1\u{a0}"), "q1");
    assert_eq!(trim(" \t "), "");
}

#[test]
fn new_data_path_normalises_extension() {
    assert_eq!(new_data_path("reports/q1"), Ok(s("reports/q1.json")));
    assert_eq!(new_data_path("  reports/q1.json \n"), Ok(s("reports/q1.json")));
    assert_eq!(new_data_path("reports/q1.txt"), Ok(s("reports/q1.json")));
    assert_eq!(new_data_path("reports/q1/"), Ok(s("reports/q1.json")));
    assert_eq!(new_data_path("reports/"), Ok(s("reports.json")));
}

#[test]
fn new_data_path_rejects_blank_input() {
    assert_eq!(new_data_path("   "), Err(PathError::EmptyPath));
    assert_eq!(new_data_path(""), Err(PathError::EmptyPath));
    assert_eq!(new_data_path("reports/ .json"), Err(PathError::EmptyName));
    assert_eq!(new_data_path("/"), Err(PathError::NoFileName));
    assert_eq!(new_data_path("reports/.."), Err(PathError::NoFileName));
}

#[test]
fn create_workspace_scenario() {
    let w = match Workspace::create_target("reports/q1") {
        Ok(w) => w,
        Err(e) => panic!("{e:?}"),
    };
    assert_eq!(w.data_path(), "reports/q1.json");
    assert_eq!(w.schema_path(), "reports/q1.schema.json");
    let w = match w.check_vacant(false, false) {
        Ok(w) => w,
        Err(e) => panic!("{e:?}"),
    };
    let schema = default_schema(&table_name_for(w.data_path()), &s("2024-01-01T00:00:00+00:00"));
    let md = field(&schema, "metadata").unwrap();
    assert_eq!(field(md, "row_count"), Some(&uint(0)));
    assert_eq!(text_of(&schema, "table_name"), "q1");
    let again = match Workspace::create_target("reports/q1") {
        Ok(w) => w,
        Err(e) => panic!("{e:?}"),
    };
    assert!(matches!(again.check_vacant(true, true), Err(WorkspaceError::AlreadyExists)));
    let again = Workspace::create_target("reports/q1").ok().unwrap();
    assert!(matches!(again.check_vacant(false, true), Err(WorkspaceError::AlreadyExists)));
}

#[test]
fn create_target_reports_path_errors() {
    assert!(matches!(
        Workspace::create_target("  "),
        Err(WorkspaceError::Path(PathError::EmptyPath))
    ));
}

#[test]
fn load_target_needs_an_existing_file() {
    assert!(matches!(
        Workspace::load_target("/x/orders.json", false),
        Err(WorkspaceError::MissingDataFile)
    ));
    let w = Workspace::load_target("/x/orders.json", true).ok().unwrap();
    assert_eq!(w.schema_path(), "/x/orders.schema.json");
    let info = w.info();
    assert_eq!(info.data_path, "/x/orders.json");
    assert_eq!(info.schema_path, "/x/orders.schema.json");
    assert_eq!(info.folder, "/x");
}

#[test]
fn default_schema_shape() {
    let schema = default_schema("orders", &s("T0"));
    assert_eq!(text_of(&schema, "version"), "1.0");
    assert_eq!(text_of(&schema, "table_name"), "orders");
    match field(&schema, "columns") {
        Some(Json::Array(cols)) => {
            assert_eq!(cols.len(), 1);
            assert_eq!(text_of(&cols[0], "id"), "_id");
            assert_eq!(text_of(&cols[0], "name"), "ID");
            assert_eq!(text_of(&cols[0], "type"), "text");
            assert_eq!(field(&cols[0], "hidden"), Some(&Json::Bool(true)));
            assert_eq!(field(&cols[0], "system"), Some(&Json::Bool(true)));
        }
        other => panic!("{other:?}"),
    }
    let md = field(&schema, "metadata").unwrap();
    assert_eq!(text_of(md, "created_at"), "T0");
    assert_eq!(text_of(md, "updated_at"), "T0");
    let ext = field(&schema, "extensions").unwrap();
    match field(ext, "available_types") {
        Some(Json::Array(types)) => assert_eq!(types.len(), 5),
        other => panic!("{other:?}"),
    }
}

#[test]
fn table_name_falls_back_to_untitled() {
    assert_eq!(table_name_for("/x/orders.json"), "orders");
    assert_eq!(table_name_for("/x/"), "x");
    assert_eq!(table_name_for("/"), "Untitled");
    assert_eq!(table_name_for("a/.."), "Untitled");
}

#[test]
fn seed_schema_is_dated_now() {
    let schema = seed_schema("/x/orders.json");
    assert_eq!(text_of(&schema, "table_name"), "orders");
    let md = field(&schema, "metadata").unwrap();
    assert!(!text_of(md, "created_at").is_empty());
    assert_eq!(text_of(md, "created_at"), text_of(md, "updated_at"));
}

#[test]
fn save_bob_scenario() {
    let mut data = vec![obj(vec![("name", text("Bob"))])];
    let mut schema = obj(vec![("version", text("1.0"))]);
    let summary = prepare_save(&mut data, &mut schema);
    assert_eq!(summary.row_count, 1);
    assert!(summary.updated_at.ends_with("+00:00"));
    assert!(!summary.updated_at.is_empty());
    let id = text_of(&data[0], "_id");
    assert!(id.starts_with("row_"));
    assert_eq!(id.chars().count(), 14);
    assert_eq!(text_of(&data[0], "name"), "Bob");
    assert_eq!(text_of(&data[0], "_created"), summary.updated_at);
    assert_eq!(text_of(&data[0], "_updated"), summary.updated_at);
    assert_eq!(field(&data[0], "_order"), Some(&uint(0)));
    let md = field(&schema, "metadata").unwrap();
    assert_eq!(field(md, "row_count"), Some(&uint(1)));
    assert_eq!(text_of(md, "updated_at"), summary.updated_at);
}

#[test]
fn generated_ids_differ() {
    let mut data = vec![obj(vec![]), obj(vec![])];
    let n = normalise_rows(&mut data, &s("T"));
    assert_eq!(n, 2);
    let a = text_of(&data[0], "_id");
    let b = text_of(&data[1], "_id");
    assert_ne!(a, b);
    for id in [a, b] {
        assert!(id[4..].chars().all(|c| c.is_ascii_alphanumeric() || c == '_' || c == '-'));
    }
}

#[test]
fn resave_keeps_identity_and_refreshes_update_time() {
    let mut data = vec![obj(vec![("name", text("Ann"))]), obj(vec![("name", text("Bob"))])];
    let mut schema = obj(vec![]);
    save_at(&mut data, &mut schema, &s("T1"));
    let id0 = text_of(&data[0], "_id");
    let id1 = text_of(&data[1], "_id");
    assert_eq!(text_of(&data[1], "_created"), "T1");
    if let Json::Object(m) = &mut data[1] {
        tablespace::json::set_member(m, s("name"), text("Bobby"));
    }
    save_at(&mut data, &mut schema, &s("T2"));
    assert_eq!(text_of(&data[0], "_id"), id0);
    assert_eq!(text_of(&data[1], "_id"), id1);
    assert_eq!(text_of(&data[1], "_created"), "T1");
    assert_eq!(text_of(&data[1], "_updated"), "T2");
    assert_eq!(text_of(&data[1], "name"), "Bobby");
    assert_eq!(field(&data[1], "_order"), Some(&uint(1)));
}

#[test]
fn existing_id_is_never_replaced() {
    let mut row = obj(vec![("_id", text("row_abc123"))]);
    for (i, t) in ["T1", "T2", "T3"].iter().enumerate() {
        row = normalise_row(row, i, &s(t), "zzzzzzzzzz");
        assert_eq!(text_of(&row, "_id"), "row_abc123");
    }
    assert_eq!(text_of(&row, "_updated"), "T3");
}

#[test]
fn fresh_id_is_prefixed() {
    let row = normalise_row(obj(vec![]), 3, &s("T"), "abcdefghij");
    assert_eq!(text_of(&row, "_id"), "row_abcdefghij");
    assert_eq!(field(&row, "_order"), Some(&uint(3)));
}

#[test]
fn order_coercion() {
    let bad = normalise_row(obj(vec![("_order", text("bad"))]), 5, &s("T"), "abcdefghij");
    assert_eq!(field(&bad, "_order"), Some(&uint(5)));
    let kept = normalise_row(obj(vec![("_order", uint(42))]), 0, &s("T"), "abcdefghij");
    assert_eq!(field(&kept, "_order"), Some(&uint(42)));
    let negative = Json::Number(JsonNumber::NegInt(-3));
    let kept = normalise_row(obj(vec![("_order", negative)]), 1, &s("T"), "abcdefghij");
    assert_eq!(field(&kept, "_order"), Some(&Json::Number(JsonNumber::NegInt(-3))));
}

#[test]
fn existing_created_is_kept() {
    let row = normalise_row(obj(vec![("_created", text("T0"))]), 0, &s("T1"), "abcdefghij");
    assert_eq!(text_of(&row, "_created"), "T0");
    assert_eq!(text_of(&row, "_updated"), "T1");
}

#[test]
fn non_object_rows_are_untouched() {
    let mut data = vec![uint(7), text("x"), Json::Null];
    let n = normalise_rows(&mut data, &s("T"));
    assert_eq!(n, 3);
    assert_eq!(data, vec![uint(7), text("x"), Json::Null]);
}

#[test]
fn metadata_keeps_other_keys() {
    let mut schema = obj(vec![
        ("version", text("1.0")),
        ("metadata", obj(vec![("created_at", text("T0")), ("row_count", uint(9))])),
    ]);
    update_schema_metadata(&mut schema, 4, &s("T5"));
    let md = field(&schema, "metadata").unwrap();
    assert_eq!(field(md, "row_count"), Some(&uint(4)));
    assert_eq!(text_of(md, "updated_at"), "T5");
    assert_eq!(text_of(md, "created_at"), "T0");
    assert_eq!(text_of(&schema, "version"), "1.0");
}

#[test]
fn metadata_is_created_when_missing() {
    let mut schema = obj(vec![("metadata", text("oops"))]);
    update_schema_metadata(&mut schema, 2, &s("T"));
    let md = field(&schema, "metadata").unwrap();
    match md {
        Json::Object(m) => assert_eq!(m.len(), 2),
        other => panic!("{other:?}"),
    }
    assert_eq!(field(md, "row_count"), Some(&uint(2)));
    let mut schema = obj(vec![]);
    update_schema_metadata(&mut schema, 0, &s("T"));
    assert_eq!(field(field(&schema, "metadata").unwrap(), "row_count"), Some(&uint(0)));
}

#[test]
fn metadata_on_non_object_schema_is_a_no_op() {
    let mut schema = Json::Array(vec![]);
    update_schema_metadata(&mut schema, 2, &s("T"));
    assert_eq!(schema, Json::Array(vec![]));
}

#[test]
fn rows_of_requires_an_array() {
    assert_eq!(rows_of(Json::Array(vec![uint(1)])).ok(), Some(vec![uint(1)]));
    assert!(matches!(rows_of(obj(vec![])), Err(WorkspaceError::NotAnArray)));
}

#[test]
fn write_plan_siblings() {
    let p = write_plan("/x/orders.json");
    assert_eq!(p.backup, "/x/orders.json.bak");
    assert_eq!(p.temp, "/x/orders.json.tmp");
    let p = write_plan("/x/orders.json/");
    assert_eq!(p.backup, "/x/orders.json.bak");
    assert_eq!(p.temp, "/x/orders.json.tmp");
    let p = write_plan("/x/orders.schema.json");
    assert_eq!(p.backup, "/x/orders.schema.json.bak");
    assert_eq!(p.temp, "/x/orders.schema.json.tmp");
}

fn change(kind: EventKind, paths: &[&str]) -> WatchEvent {
    WatchEvent::Changed { kind, paths: paths.iter().map(|p| s(p)).collect() }
}

#[test]
fn watch_ignores_unrelated_files() {
    let w = workspace("/x/orders.json");
    assert_eq!(notification_for(change(EventKind::Modify, &["/x/other.json"]), &w), None);
    assert_eq!(notification_for(change(EventKind::Modify, &["/x/orders.json.tmp"]), &w), None);
    assert_eq!(notification_for(change(EventKind::Modify, &[]), &w), None);
}

#[test]
fn watch_reports_changes_to_either_file() {
    let w = workspace("/x/orders.json");
    let expected = Some(Notification::FileChanged {
        data_path: s("/x/orders.json"),
        schema_path: s("/x/orders.schema.json"),
    });
    assert_eq!(notification_for(change(EventKind::Modify, &["/x/orders.json"]), &w), expected);
    let expected = Some(Notification::FileChanged {
        data_path: s("/x/orders.json"),
        schema_path: s("/x/orders.schema.json"),
    });
    assert_eq!(
        notification_for(change(EventKind::Remove, &["/x/a", "/x/orders.schema.json"]), &w),
        expected
    );
    assert!(notification_for(change(EventKind::Create, &["/x/orders.json"]), &w).is_some());
}

#[test]
fn watch_ignores_other_kinds() {
    let w = workspace("/x/orders.json");
    assert_eq!(notification_for(change(EventKind::Access, &["/x/orders.json"]), &w), None);
    assert_eq!(notification_for(change(EventKind::Other, &["/x/orders.json"]), &w), None);
}

#[test]
fn watch_failures_are_reported() {
    let w = workspace("/x/orders.json");
    let n = notification_for(WatchEvent::Failed { message: s("inotify limit") }, &w);
    assert_eq!(n, Some(Notification::WatchError { message: s("inotify limit") }));
    assert_eq!(n.unwrap().event_name(), "workspace:watch-error");
    let changed = Notification::FileChanged { data_path: s("a"), schema_path: s("b") };
    assert_eq!(changed.event_name(), "workspace:file-changed");
}

#[test]
fn slot_holds_one_workspace() {
    let mut slot = WorkspaceSlot::new();
    assert!(matches!(slot.paths(), Err(WorkspaceError::NotLoaded)));
    assert!(slot.install(workspace("/x/a.json")).is_none());
    assert_eq!(slot.paths().ok(), Some((s("/x/a.json"), s("/x/a.schema.json"))));
    let previous = slot.install(workspace("/y/b.json")).unwrap();
    assert_eq!(previous.data_path(), "/x/a.json");
    assert_eq!(slot.paths().ok(), Some((s("/y/b.json"), s("/y/b.schema.json"))));
}

#[test]
fn error_messages_are_readable() {
    for e in [
        WorkspaceError::NotLoaded,
        WorkspaceError::MissingDataFile,
        WorkspaceError::AlreadyExists,
        WorkspaceError::NotAnArray,
        WorkspaceError::Path(PathError::EmptyName),
    ] {
        assert!(!e.message().is_empty());
    }
    assert_eq!(WorkspaceError::NotLoaded.message(), "Workspace not loaded");
    assert_eq!(WorkspaceError::MissingDataFile.message(), "指定されたデータファイルが存在しません");
    assert_eq!(WorkspaceError::AlreadyExists.message(), "同名のファイルが既に存在します");
    assert_eq!(WorkspaceError::NotAnArray.message(), "データファイルの形式が正しくありません");
    assert_eq!(WorkspaceError::Path(PathError::EmptyPath).message(), "ファイルパスを指定してください");
    assert_eq!(WorkspaceError::Path(PathError::EmptyName).message(), "ファイル名を入力してください");
    assert_eq!(WorkspaceError::Path(PathError::NoFileName).message(), "ファイル名を取得できません");
    assert_eq!(
        WorkspaceError::Path(PathError::NoDataFileName).message(),
        "データファイル名を取得できません"
    );
}

#[test]
fn is_space_agrees_with_std() {
    for c in (0u32..=0x10ffff).filter_map(char::from_u32) {
        assert_eq!(is_space(c), c.is_whitespace(), "{:?}", c);
    }
}

#[test]
fn new_data_file_holds_no_rows() {
    assert_eq!(seed_data(), Json::Array(vec![]));
}

#[test]
fn create_target_accepts_a_folder_like_path() {
    let w = Workspace::create_target("reports/q1/").ok().unwrap();
    assert_eq!(w.data_path(), "reports/q1.json");
    assert_eq!(w.schema_path(), "reports/q1.schema.json");
}
