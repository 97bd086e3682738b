use ritual::data::CppBaseSpecifier;
use ritual::data::CppClassField;
use ritual::data::CppEnumValue;
use ritual::data::CppItemData;
use ritual::data::CppMethod;
use ritual::data::CppTypeData;
use ritual::data::CppVisibility;
use ritual::data::DataEnv;
use ritual::data::DataEnvInfo;
use ritual::data::DataSource;
use ritual::data::Target;
use ritual::database::Database;
use ritual::database::DatabaseUpdateResultType;

fn linux_target() -> Target {
    Target {
        arch: String::from("x86_64"),
        os: String::from("linux"),
        family: String::from("unix"),
        env: String::from("gnu"),
    }
}

fn windows_target() -> Target {
    Target {
        arch: String::from("x86_64"),
        os: String::from("windows"),
        family: String::from("windows"),
        env: String::from("msvc"),
    }
}

fn env_linux_v1() -> DataEnv {
    DataEnv {
        target: linux_target(),
        data_source: DataSource::CppParser,
        cpp_library_version: Some(String::from("5.9.1")),
    }
}

fn env_windows_v1() -> DataEnv {
    DataEnv {
        target: windows_target(),
        data_source: DataSource::CppParser,
        cpp_library_version: Some(String::from("5.9.1")),
    }
}

fn success() -> DataEnvInfo {
    DataEnvInfo {
        is_success: true,
        error: None,
        include_file: None,
        origin_location: None,
        is_invalidated: false,
    }
}

fn failure(message: &str) -> DataEnvInfo {
    DataEnvInfo {
        is_success: false,
        error: Some(String::from(message)),
        include_file: None,
        origin_location: None,
        is_invalidated: false,
    }
}

fn method_named(name: &str) -> CppItemData {
    CppItemData::Method(CppMethod {
        return_type: String::from("int"),
        name: String::from(name),
        arguments: Vec::new(),
        is_const: false,
    })
}

#[test]
fn upsert_scenario_two_environments() {
    let mut db = Database::empty("qt_core");
    let first = db.add_cpp_data(&env_linux_v1(), &method_named("foo"), success());
    assert!(matches!(first.result_type, DatabaseUpdateResultType::ItemAdded));
    let second = db.add_cpp_data(&env_linux_v1(), &method_named("foo"), success());
    assert!(matches!(second.result_type, DatabaseUpdateResultType::Unchanged));
    let third = db.add_cpp_data(&env_windows_v1(), &method_named("foo"), failure("missing header"));
    assert!(matches!(third.result_type, DatabaseUpdateResultType::EnvAdded));
    assert_eq!(db.items().len(), 1);
    let recs = &db.items()[0].environments;
    assert_eq!(recs.len(), 2);
    assert!(recs[0].info.is_success);
    assert!(!recs[1].info.is_success);
    assert_eq!(recs[1].info.error, Some(String::from("missing header")));
}

#[test]
fn upsert_twice_leaves_database_identical() {
    let mut db = Database::empty("qt_core");
    db.add_cpp_data(&env_linux_v1(), &method_named("foo"), success());
    let snapshot = ritual::codec::serialize(&db);
    let second = db.add_cpp_data(&env_linux_v1(), &method_named("foo"), success());
    assert!(matches!(second.result_type, DatabaseUpdateResultType::Unchanged));
    assert_eq!(ritual::codec::serialize(&db), snapshot);
}

#[test]
fn upsert_changed_outcome_reports_previous() {
    let mut db = Database::empty("qt_core");
    db.add_cpp_data(&env_linux_v1(), &method_named("foo"), success());
    let update = db.add_cpp_data(&env_linux_v1(), &method_named("foo"), failure("broke"));
    assert!(matches!(update.result_type, DatabaseUpdateResultType::EnvUpdated));
    assert_eq!(update.old_data, Some(success()));
    assert_eq!(update.new_data.len(), 1);
    assert!(!update.new_data[0].info.is_success);
}

#[test]
fn upsert_does_not_touch_other_environment() {
    let mut db = Database::empty("qt_core");
    db.add_cpp_data(&env_linux_v1(), &method_named("foo"), success());
    db.add_cpp_data(&env_windows_v1(), &method_named("foo"), failure("missing header"));
    let linux_before = db.items()[0].environments[0].clone();
    db.add_cpp_data(&env_windows_v1(), &method_named("foo"), success());
    assert_eq!(db.items()[0].environments[0], linux_before);
}

#[test]
fn invalidate_then_reconfirm_clears_staleness() {
    let mut db = Database::empty("qt_core");
    db.add_cpp_data(&env_linux_v1(), &method_named("foo"), success());
    db.invalidate_env(&env_linux_v1());
    assert!(db.items()[0].environments[0].info.is_invalidated);
    let update = db.add_cpp_data(&env_linux_v1(), &method_named("foo"), success());
    assert!(matches!(update.result_type, DatabaseUpdateResultType::Unchanged));
    assert!(!db.items()[0].environments[0].info.is_invalidated);
}

#[test]
fn invalidate_leaves_other_environment_fresh() {
    let mut db = Database::empty("qt_core");
    db.add_cpp_data(&env_linux_v1(), &method_named("foo"), success());
    db.add_cpp_data(&env_windows_v1(), &method_named("foo"), success());
    db.invalidate_env(&env_windows_v1());
    assert!(!db.items()[0].environments[0].info.is_invalidated);
    assert!(db.items()[0].environments[1].info.is_invalidated);
}

#[test]
fn distinct_payloads_never_merge() {
    let mut db = Database::empty("qt_core");
    db.add_cpp_data(&env_linux_v1(), &method_named("foo"), success());
    let other = db.add_cpp_data(&env_linux_v1(), &method_named("bar"), success());
    assert!(matches!(other.result_type, DatabaseUpdateResultType::ItemAdded));
    assert_eq!(db.items().len(), 2);
}

#[test]
fn equal_payloads_merge_regardless_of_order() {
    let mut db = Database::empty("qt_core");
    db.add_cpp_data(&env_linux_v1(), &method_named("bar"), success());
    db.add_cpp_data(&env_linux_v1(), &method_named("foo"), success());
    let merged = db.add_cpp_data(&env_windows_v1(), &method_named("bar"), success());
    assert!(matches!(merged.result_type, DatabaseUpdateResultType::EnvAdded));
    assert_eq!(db.items().len(), 2);
    assert_eq!(db.items()[0].environments.len(), 2);
}

#[test]
fn short_text_renders_version_source_and_target() {
    assert_eq!(env_linux_v1().short_text(), "5.9.1/cpp_parser/x86_64-linux-unix-gnu");
    let unversioned = DataEnv {
        target: linux_target(),
        data_source: DataSource::CppChecker,
        cpp_library_version: None,
    };
    assert_eq!(unversioned.short_text(), "None/cpp_checker/x86_64-linux-unix-gnu");
}

#[test]
fn outcome_markup_lists_error_and_staleness() {
    assert_eq!(success().to_html_log(), "<span class='ok'>OK</span>");
    let mut bad = failure("missing header");
    bad.is_invalidated = true;
    assert_eq!(
        bad.to_html_log(),
        "<span class='ok'>Error</span> (missing header) <span class='invalidated'>(invalidated)</span>"
    );
}

#[test]
fn item_texts_cover_every_fact_kind() {
    let enum_decl = CppItemData::Type(CppTypeData::Enum { name: String::from("Qt::Alignment") });
    assert_eq!(enum_decl.to_text(), "enum Qt::Alignment");
    let class_decl = CppItemData::Type(CppTypeData::Class { type_base: String::from("QString") });
    assert_eq!(class_decl.to_text(), "class QString");
    let method = CppItemData::Method(CppMethod {
        return_type: String::from("int"),
        name: String::from("count"),
        arguments: vec![String::from("int"), String::from("bool")],
        is_const: true,
    });
    assert_eq!(method.to_text(), "int count(int, bool) const");
    let value = CppItemData::EnumValue(CppEnumValue {
        enum_name: String::from("Color"),
        name: String::from("Red"),
        value: -2,
    });
    assert_eq!(value.to_text(), "enum Color { Red = -2, ... }");
    let field = CppItemData::ClassField(CppClassField {
        class_type: String::from("QWidget"),
        visibility: CppVisibility::Protected,
        field_type: String::from("int"),
        name: String::from("x"),
    });
    assert_eq!(field.to_text(), "class QWidget { protected int x; ... }");
    let base = CppItemData::ClassBase(CppBaseSpecifier {
        derived_class_type: String::from("D"),
        base_class_type: String::from("B"),
        visibility: CppVisibility::Public,
        is_virtual: true,
        base_index: 1,
    });
    assert_eq!(base.to_text(), "class D : virtual public B (index: 1");
    let plain_base = CppItemData::ClassBase(CppBaseSpecifier {
        derived_class_type: String::from("D"),
        base_class_type: String::from("B"),
        visibility: CppVisibility::Private,
        is_virtual: false,
        base_index: 0,
    });
    assert_eq!(plain_base.to_text(), "class D : private B");
}

#[test]
fn report_renders_one_row_per_item() {
    let mut db = Database::empty("qt_core");
    db.add_cpp_data(
        &env_linux_v1(),
        &CppItemData::Type(CppTypeData::Class { type_base: String::from("QList<int>") }),
        success(),
    );
    let report = db.print_as_html();
    assert!(report.starts_with("<tr><th>Item</th><th>Environments</th></tr>\n"));
    assert!(report.contains("class QList&lt;int&gt;"));
    assert!(report.contains("<li>5.9.1/cpp_parser/x86_64-linux-unix-gnu: <span class='ok'>OK</span></li>"));
}

#[test]
fn empty_database_has_name_and_no_items() {
    let db = Database::empty("moqt_core");
    assert_eq!(db.crate_name(), "moqt_core");
    assert_eq!(db.items().len(), 0);
}
