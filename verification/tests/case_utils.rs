use ritual::builder::CppLibBuilder;
use ritual::text::escape_html;
use ritual::text::i64_to_dec_string;
use ritual::text::u64_to_dec_string;
use ritual::utils::add_to_multihash;
use ritual::utils::replace_all_sub_vecs;
use ritual::utils::CaseOperations;
use ritual::utils::JoinWithString;
use ritual::utils::VecCaseOperations;
use ritual::utils::WordIterator;
use std::collections::HashMap;

fn words_of(s: &str) -> Vec<String> {
    let mut it = WordIterator::new(s);
    let mut out = Vec::new();
    loop {
        match it.next() {
            Some(w) => out.push(w),
            None => return out,
        }
    }
}

#[test]
fn word_iterator_splits_identifiers() {
    assert_eq!(words_of("fooBarBaz"), vec!["foo", "Bar", "Baz"]);
    assert_eq!(words_of("foo_bar"), vec!["foo", "bar"]);
    assert_eq!(words_of("__leading"), vec!["leading"]);
    assert_eq!(words_of("OpenGLWidget"), vec!["Open", "G", "L", "Widget"]);
    assert_eq!(words_of("HTTPServer"), vec!["HTTPS", "erver"]);
    assert_eq!(words_of("QPoint"), vec!["Q", "Point"]);
    assert_eq!(words_of(""), Vec::<String>::new());
    assert_eq!(words_of("___"), Vec::<String>::new());
}

#[test]
fn class_case_capitalizes_each_word() {
    assert_eq!(String::from("foo_bar").to_class_case(), "FooBar");
    assert_eq!(String::from("fooBar").to_class_case(), "FooBar");
}

#[test]
fn snake_case_lowers_and_joins() {
    assert_eq!(String::from("fooBar").to_snake_case(), "foo_bar");
    assert_eq!(String::from("OpenGLWidget").to_snake_case(), "opengl_widget");
    assert_eq!(String::from("NaN").to_snake_case(), "nan");
}

#[test]
fn word_list_case_operations() {
    let parts: Vec<&str> = vec!["qt", "core"];
    assert_eq!(parts.to_class_case(), "QtCore");
    let parts: Vec<&str> = vec!["Qt", "CORE"];
    assert_eq!(parts.to_snake_case(), "qt_core");
}

#[test]
fn join_skips_separator_while_empty() {
    let parts: Vec<String> =
        vec![String::new(), String::from("a"), String::new(), String::from("b")];
    assert_eq!(parts.join("-"), "a--b");
    let empty: Vec<String> = Vec::new();
    assert_eq!(empty.join("-"), "");
}

#[test]
fn sub_vector_replacement_collapses_needles() {
    let mut parts: Vec<String> = vec![
        String::from("a"),
        String::from("na"),
        String::from("n"),
        String::from("b"),
    ];
    replace_all_sub_vecs(&mut parts, vec!["na", "n"]);
    assert_eq!(parts, vec![String::from("a"), String::from("nan"), String::from("b")]);

    let mut repeated: Vec<String> =
        vec![String::from("na"), String::from("n"), String::from("na"), String::from("n")];
    replace_all_sub_vecs(&mut repeated, vec!["na", "n"]);
    assert_eq!(repeated, vec![String::from("nan"), String::from("nan")]);
}

#[test]
fn multihash_appends_under_one_key() {
    let mut hash: HashMap<u64, Vec<i32>> = HashMap::new();
    add_to_multihash(&mut hash, 7, 1);
    add_to_multihash(&mut hash, 7, 2);
    add_to_multihash(&mut hash, 9, 5);
    assert_eq!(hash.get(&7), Some(&vec![1, 2]));
    assert_eq!(hash.get(&9), Some(&vec![5]));
}

#[test]
fn html_escaping_replaces_markup_characters() {
    assert_eq!(escape_html("a<b&c>\"d\""), "a&lt;b&amp;c&gt;&quot;d&quot;");
    assert_eq!(escape_html("plain"), "plain");
}

#[test]
fn decimal_rendering_matches_formatting() {
    assert_eq!(u64_to_dec_string(0), "0");
    assert_eq!(u64_to_dec_string(1234), "1234");
    assert_eq!(u64_to_dec_string(u64::MAX), format!("{}", u64::MAX));
    assert_eq!(i64_to_dec_string(-1), "-1");
    assert_eq!(i64_to_dec_string(i64::MIN), format!("{}", i64::MIN));
    assert_eq!(i64_to_dec_string(42), "42");
}

#[test]
fn builder_plans_configure_then_install() {
    let builder = CppLibBuilder {
        cmake_source_dir: String::from("/src/lib"),
        build_dir: String::from("/build"),
        install_dir: String::from("/install"),
        num_jobs: 4,
        linker_env_library_dirs: Some(vec![String::from("/opt/libs")]),
    };
    let plans = builder.plan(false);
    assert_eq!(plans.len(), 2);
    assert_eq!(plans[0].program, "cmake");
    assert_eq!(plans[0].arguments, vec![
        String::from("/src/lib"),
        String::from("-DCMAKE_INSTALL_PREFIX=/install"),
    ]);
    assert_eq!(plans[0].current_dir, "/build");
    assert!(plans[0].env_path_vars.is_empty());
    assert_eq!(plans[1].program, "make");
    assert_eq!(plans[1].arguments, vec![String::from("-j4"), String::from("install")]);
    assert_eq!(plans[1].env_path_vars, vec![
        String::from("LIBRARY_PATH"),
        String::from("LD_LIBRARY_PATH"),
        String::from("LIB"),
    ]);
    assert_eq!(plans[1].env_path_additions, vec![String::from("/opt/libs")]);

    let msvc_plans = builder.plan(true);
    assert_eq!(msvc_plans[0].arguments, vec![
        String::from("/src/lib"),
        String::from("-DCMAKE_INSTALL_PREFIX=/install"),
        String::from("-G"),
        String::from("NMake Makefiles"),
        String::from("-DCMAKE_BUILD_TYPE=Release"),
    ]);
    assert_eq!(msvc_plans[1].program, "nmake");
    assert_eq!(msvc_plans[1].arguments, vec![String::from("install")]);
}
