use ritual::codec::deserialize;
use ritual::codec::serialize;
use ritual::data::CppBaseSpecifier;
use ritual::data::CppEnumValue;
use ritual::data::CppFfiMethod;
use ritual::data::CppItemData;
use ritual::data::CppItemDoc;
use ritual::data::CppMethod;
use ritual::data::CppOriginLocation;
use ritual::data::CppTypeData;
use ritual::data::CppVisibility;
use ritual::data::DataEnv;
use ritual::data::DataEnvInfo;
use ritual::data::DataEnvWithInfo;
use ritual::data::DataSource;
use ritual::data::Target;
use ritual::database::Database;
use ritual::database::DatabaseItem;

fn sample_env(os: &str) -> DataEnv {
    DataEnv {
        target: Target {
            arch: String::from("x86_64"),
            os: String::from(os),
            family: String::from("unix"),
            env: String::from("gnu"),
        },
        data_source: DataSource::CppChecker,
        cpp_library_version: Some(String::from("5.11")),
    }
}

fn sample_database() -> Database {
    let record = DataEnvWithInfo {
        env: sample_env("linux"),
        info: DataEnvInfo {
            is_success: false,
            error: Some(String::from("no such header")),
            include_file: Some(String::from("qstring.h")),
            origin_location: Some(CppOriginLocation {
                include_file: String::from("qstring.h"),
                line: 120,
                column: 4,
            }),
            is_invalidated: true,
        },
    };
    let method_item = DatabaseItem {
        environments: vec![record],
        cpp_data: CppItemData::Method(CppMethod {
            return_type: String::from("QString"),
            name: String::from("left"),
            arguments: vec![String::from("int")],
            is_const: true,
        }),
        doc: Some(CppItemDoc::Method(String::from("Returns a prefix."))),
        cpp_ffi_methods: vec![CppFfiMethod {
            name: String::from("qstring_left"),
            arguments: vec![String::from("self"), String::from("len")],
        }],
        is_stack_allocated_type: true,
    };
    let enum_item = DatabaseItem {
        environments: Vec::new(),
        cpp_data: CppItemData::EnumValue(CppEnumValue {
            enum_name: String::from("Qt::Key"),
            name: String::from("Key_A"),
            value: -65,
        }),
        doc: None,
        cpp_ffi_methods: Vec::new(),
        is_stack_allocated_type: false,
    };
    let base_item = DatabaseItem {
        environments: Vec::new(),
        cpp_data: CppItemData::ClassBase(CppBaseSpecifier {
            derived_class_type: String::from("QWidget"),
            base_class_type: String::from("QObject"),
            visibility: CppVisibility::Public,
            is_virtual: false,
            base_index: 0,
        }),
        doc: Some(CppItemDoc::Type(String::from("base edge"))),
        cpp_ffi_methods: Vec::new(),
        is_stack_allocated_type: false,
    };
    let type_item = DatabaseItem {
        environments: Vec::new(),
        cpp_data: CppItemData::Type(CppTypeData::Enum { name: String::from("Qt::Key") }),
        doc: Some(CppItemDoc::EnumValue(String::from("keys"))),
        cpp_ffi_methods: Vec::new(),
        is_stack_allocated_type: false,
    };
    Database {
        crate_name: String::from("qt_core"),
        items: vec![method_item, enum_item, base_item, type_item],
        environments: vec![sample_env("linux"), sample_env("macos")],
    }
}

#[test]
fn round_trip_restores_the_database() {
    let db = sample_database();
    let bytes = serialize(&db);
    let restored = deserialize(&bytes).expect("stored bytes must parse");
    assert_eq!(restored, db);
}

#[test]
fn serialization_is_byte_stable() {
    let db = sample_database();
    let bytes = serialize(&db);
    let restored = deserialize(&bytes).expect("stored bytes must parse");
    assert_eq!(serialize(&restored), bytes);
}

#[test]
fn empty_database_round_trips() {
    let db = Database::empty("moqt_gui");
    let bytes = serialize(&db);
    assert_eq!(deserialize(&bytes), Some(db));
}

#[test]
fn truncated_bytes_are_rejected() {
    assert_eq!(deserialize(&Vec::new()), None);
    let db = sample_database();
    let mut bytes = serialize(&db);
    bytes.pop();
    assert_eq!(deserialize(&bytes), None);
}

#[test]
fn trailing_bytes_are_rejected() {
    let db = sample_database();
    let mut bytes = serialize(&db);
    bytes.push(0);
    assert_eq!(deserialize(&bytes), None);
}

#[test]
fn non_ascii_text_round_trips() {
    let mut db = Database::empty("qt_core");
    db.crate_name = String::from("q\u{00fc}\u{4e16}\u{1f600}");
    let bytes = serialize(&db);
    assert_eq!(deserialize(&bytes), Some(db));
}

#[test]
fn store_and_reload_in_one_step() {
    let db = sample_database();
    assert_eq!(ritual::codec::reload(&db), Some(db));
}
