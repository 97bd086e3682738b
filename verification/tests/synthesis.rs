use ritual::code_generator::format_doc;
use ritual::code_generator::format_doc_extended;
use ritual::code_generator::generate_ffi_file;
use ritual::code_generator::generate_lib_file;
use ritual::code_generator::Generator;
use ritual::data::CppFfiMethod;
use ritual::rust_info::RustDatabase;
use ritual::rust_info::RustDatabaseItem;
use ritual::rust_info::RustEnumValue;
use ritual::rust_info::RustFFIArgument;
use ritual::rust_info::RustFFIFunction;
use ritual::rust_info::RustFfiWrapperData;
use ritual::rust_info::RustFunction;
use ritual::rust_info::RustFunctionArgument;
use ritual::rust_info::RustFunctionKind;
use ritual::rust_info::RustFunctionScope;
use ritual::rust_info::RustItemKind;
use ritual::rust_info::RustModule;
use ritual::rust_info::RustStruct;
use ritual::rust_info::RustStructKind;
use ritual::rust_info::RustWrapperTypeKind;
use ritual::rust_type::CompleteType;
use ritual::rust_type::GenError;
use ritual::rust_type::rust_type_to_code;
use ritual::rust_type::RustPath;
use ritual::rust_type::RustPointerLikeTypeKind;
use ritual::rust_type::RustToFfiTypeConversion;
use ritual::rust_type::RustType;

fn path(parts: &[&str]) -> RustPath {
    RustPath { parts: parts.iter().map(|p| String::from(*p)).collect() }
}

fn named_type(parts: &[&str]) -> RustType {
    RustType::Common { path: path(parts), generic_arguments: None }
}

fn plain(parts: &[&str]) -> CompleteType {
    CompleteType {
        rust_api_type: named_type(parts),
        rust_ffi_type: named_type(parts),
        rust_api_to_ffi_conversion: RustToFfiTypeConversion::NoConversion,
    }
}

#[test]
fn type_code_covers_every_shape() {
    assert_eq!(rust_type_to_code(&RustType::EmptyTuple, "crate1"), "()");
    let c_int = named_type(&["std", "os", "raw", "c_int"]);
    assert_eq!(rust_type_to_code(&c_int, "crate1"), "::std::os::raw::c_int");
    let local = named_type(&["crate1", "Thing"]);
    assert_eq!(rust_type_to_code(&local, "crate1"), "crate1::Thing");
    let ptr = RustType::PointerLike {
        kind: RustPointerLikeTypeKind::Pointer,
        target: Box::new(named_type(&["std", "os", "raw", "c_int"])),
        is_const: true,
    };
    assert_eq!(rust_type_to_code(&ptr, "crate1"), "*const ::std::os::raw::c_int");
    let reference = RustType::PointerLike {
        kind: RustPointerLikeTypeKind::Reference { lifetime: Some(String::from("a")) },
        target: Box::new(named_type(&["crate1", "Thing"])),
        is_const: false,
    };
    assert_eq!(rust_type_to_code(&reference, "crate1"), "&'a mut crate1::Thing");
    let generic = RustType::Common {
        path: path(&["std", "option", "Option"]),
        generic_arguments: Some(vec![named_type(&["crate1", "Thing"])]),
    };
    assert_eq!(rust_type_to_code(&generic, "crate1"), "::std::option::Option<crate1::Thing>");
    let fn_ptr = RustType::FunctionPointer {
        return_type: Box::new(RustType::EmptyTuple),
        arguments: vec![named_type(&["std", "os", "raw", "c_int"])],
    };
    assert_eq!(rust_type_to_code(&fn_ptr, "crate1"), "extern \"C\" fn(::std::os::raw::c_int)");
}

#[test]
fn doc_comments_prefix_each_line() {
    assert_eq!(format_doc(""), "");
    assert_eq!(format_doc("hello\nworld"), "/// hello/// world");
    assert_eq!(format_doc("    indented"), "/// &#32;   indented");
    assert_eq!(format_doc_extended("crate docs", true), "//! crate docs");
}

#[test]
fn out_parameter_avoids_argument_named_object() {
    let generator = Generator::new("crate1");
    let arguments = vec![RustFunctionArgument {
        argument_type: plain(&["crate1", "T"]),
        name: String::from("object"),
        ffi_index: 0,
    }];
    let return_type = CompleteType {
        rust_api_type: named_type(&["crate1", "T"]),
        rust_ffi_type: RustType::PointerLike {
            kind: RustPointerLikeTypeKind::Pointer,
            target: Box::new(named_type(&["crate1", "T"])),
            is_const: false,
        },
        rust_api_to_ffi_conversion: RustToFfiTypeConversion::ValueToPtr,
    };
    let wrapper_data = RustFfiWrapperData {
        cpp_ffi_function: CppFfiMethod {
            name: String::from("ffn"),
            arguments: vec![String::from("a"), String::from("out")],
        },
        ffi_function_path: path(&["crate1", "ffi", "func1"]),
        return_type_ffi_index: Some(1),
    };
    let code = generator
        .generate_ffi_call(&arguments, &return_type, &wrapper_data, false)
        .expect("call must render");
    assert_eq!(
        code,
        "{\nlet mut object2: crate1::T = unsafe { ::cpp_utils::new_uninitialized::NewUninitialized::new_uninitialized() };\nunsafe { crate1::ffi::func1(object, &mut object2); }object2\n}"
    );
}

#[test]
fn plain_call_is_marshalled_out() {
    let generator = Generator::new("crate1");
    let arguments = vec![RustFunctionArgument {
        argument_type: plain(&["std", "os", "raw", "c_int"]),
        name: String::from("x"),
        ffi_index: 0,
    }];
    let return_type = plain(&["std", "os", "raw", "c_int"]);
    let wrapper_data = RustFfiWrapperData {
        cpp_ffi_function: CppFfiMethod {
            name: String::from("f1"),
            arguments: vec![String::from("x")],
        },
        ffi_function_path: path(&["crate1", "ffi", "f1"]),
        return_type_ffi_index: None,
    };
    let code = generator
        .generate_ffi_call(&arguments, &return_type, &wrapper_data, false)
        .expect("call must render");
    assert_eq!(code, "unsafe { crate1::ffi::f1(x) }");
}

#[test]
fn optional_reference_is_not_an_argument_conversion() {
    let generator = Generator::new("crate1");
    let arguments = vec![RustFunctionArgument {
        argument_type: CompleteType {
            rust_api_type: named_type(&["crate1", "T"]),
            rust_ffi_type: named_type(&["crate1", "T"]),
            rust_api_to_ffi_conversion: RustToFfiTypeConversion::OptionRefToPtr,
        },
        name: String::from("x"),
        ffi_index: 0,
    }];
    let return_type = plain(&["crate1", "T"]);
    let wrapper_data = RustFfiWrapperData {
        cpp_ffi_function: CppFfiMethod {
            name: String::from("f1"),
            arguments: vec![String::from("x")],
        },
        ffi_function_path: path(&["crate1", "ffi", "f1"]),
        return_type_ffi_index: None,
    };
    let result = generator.generate_ffi_call(&arguments, &return_type, &wrapper_data, false);
    assert_eq!(result, Err(GenError::OptionRefNotSupportedHere));
}

#[test]
fn const_reference_to_mutable_pointer_recasts() {
    let generator = Generator::new("crate1");
    let arguments = vec![RustFunctionArgument {
        argument_type: CompleteType {
            rust_api_type: RustType::PointerLike {
                kind: RustPointerLikeTypeKind::Reference { lifetime: None },
                target: Box::new(named_type(&["crate1", "T"])),
                is_const: true,
            },
            rust_ffi_type: RustType::PointerLike {
                kind: RustPointerLikeTypeKind::Pointer,
                target: Box::new(named_type(&["crate1", "T"])),
                is_const: false,
            },
            rust_api_to_ffi_conversion: RustToFfiTypeConversion::RefToPtr,
        },
        name: String::from("x"),
        ffi_index: 0,
    }];
    let return_type = plain(&["crate1", "T"]);
    let wrapper_data = RustFfiWrapperData {
        cpp_ffi_function: CppFfiMethod {
            name: String::from("f1"),
            arguments: vec![String::from("x")],
        },
        ffi_function_path: path(&["crate1", "ffi", "f1"]),
        return_type_ffi_index: None,
    };
    let code = generator
        .generate_ffi_call(&arguments, &return_type, &wrapper_data, false)
        .expect("call must render");
    assert_eq!(code, "unsafe { crate1::ffi::f1(x as *const crate1::T as *mut crate1::T) }");
}

#[test]
fn enum_value_constant_is_rendered() {
    let generator = Generator::new("crate1");
    let value = RustEnumValue {
        path: path(&["crate1", "mod1", "VAL"]),
        value: 3,
        doc: String::new(),
    };
    assert_eq!(
        generator.generate_enum_value(&value),
        "\npub const VAL: crate1::mod1 = crate1::mod1(3);\n"
    );
}

#[test]
fn boundary_declaration_is_flat() {
    let generator = Generator::new("crate1");
    let func = RustFFIFunction {
        return_type: named_type(&["std", "os", "raw", "c_int"]),
        path: path(&["crate1", "ffi", "f1"]),
        arguments: vec![RustFFIArgument {
            name: String::from("x"),
            argument_type: named_type(&["std", "os", "raw", "c_int"]),
        }],
    };
    assert_eq!(
        generator.rust_ffi_function_to_code(&func),
        "  pub fn f1(x: ::std::os::raw::c_int) -> ::std::os::raw::c_int;\n"
    );
}

#[test]
fn ffi_file_holds_an_empty_boundary_block() {
    let db = RustDatabase { items: Vec::new(), lib_extra_doc: None };
    assert_eq!(generate_ffi_file("crate1", &db), "extern \"C\" {\n}\n\n");
}

#[test]
fn lib_file_renders_the_module_tree() {
    let module = RustDatabaseItem {
        kind: RustItemKind::Module(RustModule {
            path: path(&["crate1", "m"]),
            doc: String::new(),
        }),
    };
    let function = RustDatabaseItem {
        kind: RustItemKind::Function(RustFunction {
            path: path(&["crate1", "m", "f"]),
            scope: RustFunctionScope::Free,
            is_unsafe: false,
            kind: RustFunctionKind::CppDeletableImpl { deleter: path(&["crate1", "del"]) },
            arguments: Vec::new(),
            return_type: CompleteType {
                rust_api_type: RustType::EmptyTuple,
                rust_ffi_type: RustType::EmptyTuple,
                rust_api_to_ffi_conversion: RustToFfiTypeConversion::NoConversion,
            },
            doc: String::new(),
        }),
    };
    let db = RustDatabase { items: vec![module, function], lib_extra_doc: None };
    let (text, failures) = generate_lib_file("crate1", &db);
    assert!(failures.is_empty());
    let expected = String::from(
        "#[allow(dead_code)]\nmod ffi { \ninclude!(concat!(env!(\"OUT_DIR\"), \"/ffi.rs\")); \n}\n\n",
    ) + "mod _types { \ninclude!(concat!(env!(\"OUT_DIR\"), \"/_types.rs\")); \n}\n\n"
        + "\npub mod m {\npub fn f() {\ncrate1::del}\n\n\n}\n";
    assert_eq!(text, expected);
}

#[test]
fn enum_wrapper_struct_is_a_newtype_with_derived_equality() {
    let item = RustDatabaseItem {
        kind: RustItemKind::Struct(RustStruct {
            path: path(&["crate1", "Kind"]),
            is_public: true,
            kind: RustStructKind::WrapperType { kind: RustWrapperTypeKind::EnumWrapper },
            doc: String::new(),
        }),
    };
    let db = RustDatabase { items: vec![item], lib_extra_doc: None };
    let (text, failures) = generate_lib_file("crate1", &db);
    assert!(failures.is_empty());
    assert!(text.contains(
        "\n#[derive(Debug, Clone, Copy, PartialEq, Eq)]\npub struct Kind(::std::os::raw::c_int);\n"
    ));
}

#[test]
fn sized_struct_is_reported_and_skipped() {
    let broken = RustDatabaseItem {
        kind: RustItemKind::Struct(RustStruct {
            path: path(&["crate1", "S"]),
            is_public: true,
            kind: RustStructKind::SizedType,
            doc: String::new(),
        }),
    };
    let fine = RustDatabaseItem {
        kind: RustItemKind::Struct(RustStruct {
            path: path(&["crate1", "Opaque"]),
            is_public: false,
            kind: RustStructKind::FfiClassType,
            doc: String::new(),
        }),
    };
    let db = RustDatabase { items: vec![broken, fine], lib_extra_doc: None };
    let (text, failures) = generate_lib_file("crate1", &db);
    assert_eq!(failures.len(), 1);
    assert_eq!(failures[0].item, "crate1::S");
    assert_eq!(failures[0].error, GenError::SizedStructNotGenerated);
    assert_eq!(failures[0].error.message(), "sized struct can't be generated with rust code generator");
    assert!(text.contains("struct Opaque { _unused: u8, }\n"));
    assert!(!text.contains("struct S"));
}

#[test]
fn trait_impl_renders_header_types_and_functions() {
    let generator = Generator::new("crate1");
    let imp = ritual::rust_info::RustTraitImpl {
        path: path(&["crate1", "x"]),
        trait_type: named_type(&["cpp_utils", "CppDeletable"]),
        target_type: named_type(&["crate1", "T"]),
        associated_types: vec![ritual::rust_info::RustTraitAssociatedType {
            name: String::from("Output"),
            value: RustType::EmptyTuple,
        }],
        functions: vec![RustFunction {
            path: path(&["crate1", "x", "deleter"]),
            scope: RustFunctionScope::TraitImpl,
            is_unsafe: false,
            kind: RustFunctionKind::CppDeletableImpl { deleter: path(&["crate1", "del"]) },
            arguments: Vec::new(),
            return_type: CompleteType {
                rust_api_type: RustType::EmptyTuple,
                rust_ffi_type: RustType::EmptyTuple,
                rust_api_to_ffi_conversion: RustToFfiTypeConversion::NoConversion,
            },
            doc: String::new(),
        }],
    };
    let text = generator.generate_trait_impl(&imp).expect("impl must render");
    assert_eq!(
        text,
        "impl ::cpp_utils::CppDeletable for crate1::T {\ntype Output = ();\nfn deleter() {\ncrate1::del}\n\n\n}\n\n"
    );
}

#[test]
fn callback_trampoline_marshals_each_argument() {
    let slot = RustDatabaseItem {
        kind: RustItemKind::Struct(RustStruct {
            path: path(&["crate1", "SlotOfT"]),
            is_public: true,
            kind: RustStructKind::QtSlotWrapper(ritual::rust_info::QtSlotWrapper {
                arguments: vec![CompleteType {
                    rust_api_type: RustType::PointerLike {
                        kind: RustPointerLikeTypeKind::Reference { lifetime: None },
                        target: Box::new(named_type(&["crate1", "T"])),
                        is_const: true,
                    },
                    rust_ffi_type: RustType::PointerLike {
                        kind: RustPointerLikeTypeKind::Pointer,
                        target: Box::new(named_type(&["crate1", "T"])),
                        is_const: true,
                    },
                    rust_api_to_ffi_conversion: RustToFfiTypeConversion::RefToPtr,
                }],
                cpp_arguments: vec![String::from("T const&")],
                callback_path: path(&["crate1", "SlotCallback"]),
            }),
            doc: String::new(),
        }),
    };
    let db = RustDatabase { items: vec![slot], lib_extra_doc: None };
    let (text, failures) = generate_lib_file("crate1", &db);
    assert!(failures.is_empty());
    assert!(text.contains("// native arguments: (T const&)\n"));
    assert!(text.contains("pub struct SlotOfT {\n  callback: crate1::SlotCallback,\n}\n"));
    assert!(text.contains(
        "  extern \"C\" fn trampoline(data: *mut ::std::os::raw::c_void, arg0: *const crate1::T) {\n"
    ));
    assert!(text.contains(
        "    (wrapper.callback)(unsafe { arg0.as_ref() }.expect(\"Attempted to convert null pointer to reference\"));\n"
    ));
}

#[test]
fn crate_documentation_opens_the_root_file() {
    let db = RustDatabase { items: Vec::new(), lib_extra_doc: Some(String::from("crate docs")) };
    let (text, failures) = generate_lib_file("crate1", &db);
    assert!(failures.is_empty());
    assert!(text.starts_with("//! crate docs\n#[allow(dead_code)]\n"));
}
