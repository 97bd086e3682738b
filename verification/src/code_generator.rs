//! The code synthesis engine: walks the produced crate's item tree and emits
//! the wrapper functions, auxiliary types, and boundary declarations, with
//! every argument and return value marshalled per its conversion kind.
use vstd::prelude::*;
use crate::rust_info::RustDatabase;
use crate::rust_info::RustDatabaseItem;
use crate::rust_info::RustDatabaseV;
use crate::rust_info::RustEnumValue;
use crate::rust_info::RustEnumValueV;
use crate::rust_info::RustFFIFunction;
use crate::rust_info::RustFFIFunctionV;
use crate::rust_info::RustFfiWrapperData;
use crate::rust_info::RustFfiWrapperDataV;
use crate::rust_info::RustFunction;
use crate::rust_info::RustFunctionV;
use crate::rust_info::RustFunctionArgument;
use crate::rust_info::RustFunctionArgumentV;
use crate::rust_info::RustFunctionKind;
use crate::rust_info::RustFunctionKindV;
use crate::rust_info::RustFunctionScope;
use crate::rust_info::RustItemKind;
use crate::rust_info::RustItemKindV;
use crate::rust_info::RustModule;
use crate::rust_info::RustModuleV;
use crate::rust_info::RustStruct;
use crate::rust_info::RustStructV;
use crate::rust_info::RustStructKind;
use crate::rust_info::RustStructKindV;
use crate::rust_info::RustTraitImpl;
use crate::rust_info::RustTraitImplV;
use crate::rust_info::RustWrapperTypeKind;
use crate::rust_info::QtSlotWrapper;
use crate::rust_info::QtSlotWrapperV;
use crate::rust_info::SynthesisFailure;
use crate::rust_info::SynthesisFailureV;
use crate::rust_info::args_view;
use crate::rust_info::assoc_types_view;
use crate::rust_info::complete_types_view;
use crate::rust_info::failures_view;
use crate::rust_info::ffi_args_view;
use crate::rust_info::fns_view;
use crate::rust_info::function_wf;
use crate::rust_info::item_path_spec;
use crate::rust_info::rust_items_view;
use crate::rust_info::self_arg_wf;
use crate::rust_type::CompleteType;
use crate::rust_type::CompleteTypeV;
use crate::rust_type::GenError;
use crate::rust_type::RustPath;
use crate::rust_type::RustPointerLikeTypeKind;
use crate::rust_type::RustPointerLikeTypeKindV;
use crate::rust_type::RustToFfiTypeConversion;
use crate::rust_type::RustType;
use crate::rust_type::RustTypeV;
use crate::rust_type::full_name_spec;
use crate::rust_type::is_const_spec;
use crate::rust_type::lifetime_spec;
use crate::rust_type::rust_type_to_code;
use crate::rust_type::set_const_spec;
use crate::rust_type::type_code_spec;
use crate::rust_type::with_lifetime_spec;
use crate::text::dec_of;
use crate::text::dec_of_int;
use crate::text::join_seqs;
use crate::text::join_strings;
use crate::text::replace_all;
use crate::text::replace_all_str;
use crate::text::split_at_char;
use crate::text::split_str_at_char;
use crate::text::starts_with_at;
use crate::text::str_starts_with;
use crate::text::u64_to_dec_string;
use crate::text::i64_to_dec_string;

verus! {

broadcast use vstd::std_specs::vec::group_vec_axioms, vstd::seq::group_seq_axioms;

/// One source line of a documentation comment: the prefix, then the line, its
/// leading indentation escaped so that the markdown renderer keeps it.
pub open spec fn doc_line_text(x: Seq<char>, prefix: Seq<char>) -> Seq<char> {
    if starts_with_at(x, "    "@, 0) {
        prefix + replace_all(x, "    "@, "&#32;   "@)
    } else {
        prefix + x
    }
}

/// The documentation lines, concatenated in order.
pub open spec fn doc_lines_text(lines: Seq<Seq<char>>, prefix: Seq<char>) -> Seq<char>
    decreases lines.len(),
{
    if lines.len() == 0 {
        Seq::empty()
    } else {
        doc_line_text(lines[0], prefix) + doc_lines_text(lines.drop_first(), prefix)
    }
}

proof fn lemma_doc_lines_push(lines: Seq<Seq<char>>, x: Seq<char>, prefix: Seq<char>)
    ensures
        doc_lines_text(lines.push(x), prefix) == doc_lines_text(lines, prefix) + doc_line_text(
            x,
            prefix,
        ),
    decreases lines.len(),
{
    if lines.len() == 0 {
        let sp = lines.push(x);
        assert(sp.drop_first() =~= Seq::<Seq<char>>::empty());
        assert(sp[0] == x);
        assert(doc_lines_text(sp, prefix) == doc_line_text(x, prefix) + doc_lines_text(
            Seq::<Seq<char>>::empty(),
            prefix,
        ));
        assert(doc_lines_text(Seq::<Seq<char>>::empty(), prefix) =~= Seq::<char>::empty());
        assert(doc_lines_text(sp, prefix) =~= doc_lines_text(lines, prefix) + doc_line_text(
            x,
            prefix,
        ));
    } else {
        assert(lines.push(x).drop_first() =~= lines.drop_first().push(x));
        lemma_doc_lines_push(lines.drop_first(), x, prefix);
        assert(doc_lines_text(lines.push(x), prefix) =~= doc_lines_text(lines, prefix)
            + doc_line_text(x, prefix));
    }
}

/// The documentation comment for markdown text `doc`: one prefixed piece per
/// source line, with inner comment markers, or outer ones for crate-level
/// documentation. Empty text gives no comment at all.
pub open spec fn format_doc_spec(doc: Seq<char>, is_outer: bool) -> Seq<char> {
    if doc.len() == 0 {
        Seq::empty()
    } else {
        doc_lines_text(split_at_char(doc, '\n'), if is_outer {
            "//! "@
        } else {
            "/// "@
        })
    }
}

/// Renders a documentation comment with inner markers.
pub fn format_doc(doc: &str) -> (r: String)
    ensures
        r@ == format_doc_spec(doc@, false),
{
    format_doc_extended(doc, false)
}

/// Renders a documentation comment; outer markers are for the crate root.
pub fn format_doc_extended(doc: &str, is_outer: bool) -> (r: String)
    ensures
        r@ == format_doc_spec(doc@, is_outer),
{
    if doc.unicode_len() == 0 {
        return String::new();
    }
    let lines = split_str_at_char(doc, '\n');
    let ghost lines_v = lines.deep_view();
    let ghost prefix_v = if is_outer {
        "//! "@
    } else {
        "/// "@
    };
    let mut out = String::new();
    let mut i: usize = 0;
    while i < lines.len()
        invariant
            lines.deep_view() == lines_v,
            lines@.len() == lines_v.len(),
            i <= lines_v.len(),
            prefix_v == if is_outer {
                "//! "@
            } else {
                "/// "@
            },
            out@ == doc_lines_text(lines_v.take(i as int), prefix_v),
        decreases lines_v.len() - i,
    {
        proof {
            assert(lines@[i as int]@ == lines_v[i as int]);
        }
        let prefix: &str = if is_outer {
            "//! "
        } else {
            "/// "
        };
        out.append(prefix);
        let line = &lines[i];
        if str_starts_with(line.as_str(), "    ") {
            let replaced = replace_all_str(line.as_str(), "    ", "&#32;   ");
            out.append(replaced.as_str());
        } else {
            out.append(line.as_str());
        }
        proof {
            lemma_doc_lines_push(lines_v.take(i as int), lines_v[i as int], prefix_v);
            assert(lines_v.take(i + 1 as int) =~= lines_v.take(i as int).push(lines_v[i as int]));
            assert(out@ =~= doc_lines_text(lines_v.take(i + 1 as int), prefix_v));
        }
        i = i + 1;
    }
    proof {
        assert(lines_v.take(lines_v.len() as int) =~= lines_v);
    }
    out
}

/// The opening of an unsafe-acknowledgment scope, or nothing when the
/// surrounding code already stands in one.
pub open spec fn unsafe_start(in_unsafe: bool) -> Seq<char> {
    if in_unsafe {
        ""@
    } else {
        "unsafe { "@
    }
}

/// The closing of the unsafe-acknowledgment scope.
pub open spec fn unsafe_end(in_unsafe: bool) -> Seq<char> {
    if in_unsafe {
        ""@
    } else {
        " }"@
    }
}

/// The marshal-out code: wraps `expression`, of the slot's boundary type, into
/// code producing the slot's wrapper type, per the slot's conversion kind; a
/// conversion asserted against an impossible shape is a synthesis error.
pub open spec fn convert_from_ffi_spec(
    t: CompleteTypeV,
    expression: Seq<char>,
    in_unsafe: bool,
    use_var: bool,
    current: Seq<char>,
) -> Result<Seq<char>, GenError> {
    let us = unsafe_start(in_unsafe);
    let ue = unsafe_end(in_unsafe);
    if t.rust_api_to_ffi_conversion == RustToFfiTypeConversion::NoConversion {
        Ok(expression)
    } else {
        let code1 = if use_var {
            "let ffi_result = "@ + expression + ";\n"@
        } else {
            ""@
        };
        let src = if use_var {
            "ffi_result"@
        } else {
            expression
        };
        match t.rust_api_to_ffi_conversion {
            RustToFfiTypeConversion::RefToPtr | RustToFfiTypeConversion::OptionRefToPtr => {
                let c = if t.rust_api_to_ffi_conversion == RustToFfiTypeConversion::OptionRefToPtr {
                    match t.rust_api_type {
                        RustTypeV::Common { generic_arguments, .. } => match generic_arguments {
                            Some(args) => if args.len() != 1 {
                                Err(GenError::OptionArgsCountInvalid)
                            } else {
                                is_const_spec(args[0])
                            },
                            None => Err(GenError::OptionWithoutArguments),
                        },
                        _ => Err(GenError::OptionTypeExpected),
                    }
                } else {
                    is_const_spec(t.rust_api_type)
                };
                match c {
                    Err(e) => Err(e),
                    Ok(is_c) => {
                        let unwrap_code = if t.rust_api_to_ffi_conversion
                            == RustToFfiTypeConversion::RefToPtr {
                            ".expect(\"Attempted to convert null pointer to reference\")"@
                        } else {
                            ""@
                        };
                        let method = if is_c {
                            "as_ref"@
                        } else {
                            "as_mut"@
                        };
                        Ok(code1 + (us + src + "."@ + method + "()"@ + ue + unwrap_code))
                    },
                }
            },
            RustToFfiTypeConversion::ValueToPtr => Ok(code1 + (us + "*"@ + src + ue)),
            RustToFfiTypeConversion::CppBoxToPtr => Ok(
                code1 + (us + "::cpp_utils::CppBox::new("@ + src + ")"@ + ue),
            ),
            _ => {
                // The remaining kind converts a named bitflag type.
                match t.rust_api_type {
                    RustTypeV::Common { path, .. } => Ok(
                        code1 + (type_code_spec(
                            RustTypeV::Common { path, generic_arguments: None },
                            current,
                        ) + "::from_int("@ + src + " as i32)"@),
                    ),
                    _ => Err(GenError::QFlagsTypeExpected),
                }
            },
        }
    }
}

/// The code synthesis engine for one produced crate: a pure traversal that
/// renders text; what it could not render is reported per item.
pub struct Generator {
    pub crate_name: String,
}

impl Generator {
    /// A generator for the crate named `crate_name`.
    pub fn new(crate_name: &str) -> (r: Generator)
        ensures
            r.crate_name@ == crate_name@,
    {
        Generator { crate_name: String::from_str(crate_name) }
    }

    /// Renders a path as this crate sees it.
    pub fn rust_path_to_string(&self, path: &RustPath) -> (r: String)
        ensures
            r@ == full_name_spec(path@, Some(self.crate_name@)),
    {
        path.full_name(Some(self.crate_name.as_str()))
    }

    /// Renders a type as this crate sees it.
    pub fn rust_type_to_code(&self, rust_type: &RustType) -> (r: String)
        ensures
            r@ == type_code_spec(rust_type@, self.crate_name@),
    {
        rust_type_to_code(rust_type, self.crate_name.as_str())
    }

    /// Wraps `expression`, of the boundary type of `type1`, into code
    /// producing its wrapper type. With `in_unsafe_context` the code stands in
    /// an existing unsafe scope; with `use_ffi_result_var` the expression is
    /// first bound to a local so that it is evaluated once.
    pub fn convert_type_from_ffi(
        &self,
        type1: &CompleteType,
        expression: String,
        in_unsafe_context: bool,
        use_ffi_result_var: bool,
    ) -> (r: Result<String, GenError>)
        ensures
            ({
                let s = convert_from_ffi_spec(
                    type1@,
                    expression@,
                    in_unsafe_context,
                    use_ffi_result_var,
                    self.crate_name@,
                );
                match r {
                    Ok(code) => s == Ok::<Seq<char>, GenError>(code@),
                    Err(e) => s == Err::<Seq<char>, GenError>(e),
                }
            }),
    {
        proof {
            reveal_strlit("");
        }
        let ghost spec_r = convert_from_ffi_spec(
            type1@,
            expression@,
            in_unsafe_context,
            use_ffi_result_var,
            self.crate_name@,
        );
        let us: &str = if in_unsafe_context {
            ""
        } else {
            "unsafe { "
        };
        let ue: &str = if in_unsafe_context {
            ""
        } else {
            " }"
        };
        if matches!(type1.rust_api_to_ffi_conversion, RustToFfiTypeConversion::NoConversion) {
            return Ok(expression);
        }
        let mut code1 = String::new();
        let mut src = String::new();
        if use_ffi_result_var {
            code1.append("let ffi_result = ");
            code1.append(expression.as_str());
            code1.append(";\n");
            src.append("ffi_result");
        } else {
            src.append(expression.as_str());
        }
        match type1.rust_api_to_ffi_conversion {
            RustToFfiTypeConversion::RefToPtr | RustToFfiTypeConversion::OptionRefToPtr => {
                let is_option = matches!(
                    type1.rust_api_to_ffi_conversion,
                    RustToFfiTypeConversion::OptionRefToPtr
                );
                let c: Result<bool, GenError> = if is_option {
                    match &type1.rust_api_type {
                        RustType::Common { generic_arguments, .. } => match generic_arguments {
                            Some(args) => {
                                proof {
                                    crate::rust_type::lemma_types_seq_view(args@);
                                }
                                if args.len() != 1 {
                                    Err(GenError::OptionArgsCountInvalid)
                                } else {
                                    args[0].last_is_const()
                                }
                            },
                            None => Err(GenError::OptionWithoutArguments),
                        },
                        _ => Err(GenError::OptionTypeExpected),
                    }
                } else {
                    type1.rust_api_type.last_is_const()
                };
                match c {
                    Err(e) => Err(e),
                    Ok(is_c) => {
                        let mut out = code1;
                        out.append(us);
                        out.append(src.as_str());
                        out.append(".");
                        if is_c {
                            out.append("as_ref");
                        } else {
                            out.append("as_mut");
                        }
                        out.append("()");
                        out.append(ue);
                        if is_option {
                            out.append("");
                        } else {
                            out.append(".expect(\"Attempted to convert null pointer to reference\")");
                        }
                        proof {
                            assert(spec_r is Ok && out@ =~= spec_r.unwrap());
                        }
                        Ok(out)
                    },
                }
            },
            RustToFfiTypeConversion::ValueToPtr => {
                let mut out = code1;
                out.append(us);
                out.append("*");
                out.append(src.as_str());
                out.append(ue);
                proof {
                    assert(spec_r is Ok && out@ =~= spec_r.unwrap());
                }
                Ok(out)
            },
            RustToFfiTypeConversion::CppBoxToPtr => {
                let mut out = code1;
                out.append(us);
                out.append("::cpp_utils::CppBox::new(");
                out.append(src.as_str());
                out.append(")");
                out.append(ue);
                proof {
                    assert(spec_r is Ok && out@ =~= spec_r.unwrap());
                }
                Ok(out)
            },
            _ => {
                match &type1.rust_api_type {
                    RustType::Common { path, .. } => {
                        let flag_type = RustType::Common {
                            path: path.clone(),
                            generic_arguments: None,
                        };
                        let type_code = rust_type_to_code(&flag_type, self.crate_name.as_str());
                        let mut out = code1;
                        out.append(type_code.as_str());
                        out.append("::from_int(");
                        out.append(src.as_str());
                        out.append(" as i32)");
                        proof {
                            assert(spec_r is Ok && out@ =~= spec_r.unwrap());
                        }
                        Ok(out)
                    },
                    _ => Err(GenError::QFlagsTypeExpected),
                }
            },
        }
    }
}

} // verus!

verus! {

/// The marshal-in code for one argument: the expression, of the argument's
/// wrapper type, handed to the boundary call slot.
pub open spec fn arg_to_ffi_code_spec(arg: RustFunctionArgumentV, current: Seq<char>) -> Result<
    Seq<char>,
    GenError,
> {
    let t = arg.argument_type;
    match t.rust_api_to_ffi_conversion {
        RustToFfiTypeConversion::NoConversion => Ok(arg.name),
        RustToFfiTypeConversion::OptionRefToPtr => Err(GenError::OptionRefNotSupportedHere),
        RustToFfiTypeConversion::RefToPtr => match is_const_spec(t.rust_api_type) {
            Err(e) => Err(e),
            Ok(api_c) => match is_const_spec(t.rust_ffi_type) {
                Err(e) => Err(e),
                Ok(ffi_c) => if api_c && !ffi_c {
                    match set_const_spec(t.rust_ffi_type, true) {
                        Err(e) => Err(e),
                        Ok(inter) => Ok(
                            arg.name + " as "@ + type_code_spec(inter, current) + " as "@
                                + type_code_spec(t.rust_ffi_type, current),
                        ),
                    }
                } else {
                    Ok(arg.name + " as "@ + type_code_spec(t.rust_ffi_type, current))
                },
            },
        },
        RustToFfiTypeConversion::ValueToPtr | RustToFfiTypeConversion::CppBoxToPtr => match t
            .rust_ffi_type {
            RustTypeV::PointerLike { is_const, .. } => if t.rust_api_to_ffi_conversion
                == RustToFfiTypeConversion::CppBoxToPtr {
                let method = if is_const {
                    "as_ptr"@
                } else {
                    "as_mut_ptr"@
                };
                Ok(arg.name + "."@ + method + "()"@)
            } else {
                let prefix = if is_const {
                    "&"@
                } else {
                    "&mut "@
                };
                Ok(prefix + arg.name + " as "@ + type_code_spec(t.rust_ffi_type, current))
            },
            _ => Err(GenError::VoidUnexpected),
        },
        RustToFfiTypeConversion::QFlagsToUInt => Ok(arg.name + ".to_int() as ::libc::c_uint"@),
    }
}

/// The boundary slot list after the wrapper arguments are marshalled into
/// their slots, starting from `init`.
pub open spec fn fill_ffi_args_spec(
    args: Seq<RustFunctionArgumentV>,
    init: Seq<Option<Seq<char>>>,
    current: Seq<char>,
) -> Result<Seq<Option<Seq<char>>>, GenError>
    decreases args.len(),
{
    if args.len() == 0 {
        Ok(init)
    } else {
        match arg_to_ffi_code_spec(args[0], current) {
            Err(e) => Err(e),
            Ok(code) => fill_ffi_args_spec(
                args.drop_first(),
                init.update(args[0].ffi_index, Some(code)),
                current,
            ),
        }
    }
}

/// Whether every boundary slot has received an expression.
pub open spec fn all_present(s: Seq<Option<Seq<char>>>) -> bool {
    forall|i: int| 0 <= i < s.len() ==> s[i] is Some
}

/// The slot expressions, in slot order.
pub open spec fn unwrap_all(s: Seq<Option<Seq<char>>>) -> Seq<Seq<char>>
    decreases s.len(),
{
    if s.len() == 0 {
        Seq::empty()
    } else {
        let head = match s[0] {
            Some(x) => x,
            None => Seq::empty(),
        };
        seq![head] + unwrap_all(s.drop_first())
    }
}

/// `unwrap_all` maps each present slot to its expression.
pub proof fn lemma_unwrap_all(s: Seq<Option<Seq<char>>>)
    ensures
        unwrap_all(s).len() == s.len(),
        forall|i: int| 0 <= i < s.len() ==> unwrap_all(s)[i] == (match s[i] {
            Some(x) => x,
            None => Seq::empty(),
        }),
    decreases s.len(),
{
    if s.len() > 0 {
        lemma_unwrap_all(s.drop_first());
        assert forall|i: int| 0 <= i < s.len() implies unwrap_all(s)[i] == (match s[i] {
            Some(x) => x,
            None => Seq::empty(),
        }) by {
            if i > 0 {
                assert(s.drop_first()[i - 1] == s[i]);
                assert(unwrap_all(s)[i] == unwrap_all(s.drop_first())[i - 1]);
            }
        }
    }
}

/// The name tried for the out-parameter at attempt `ii`.
pub open spec fn object_candidate(ii: int) -> Seq<char> {
    if ii <= 1 {
        "object"@
    } else {
        "object"@ + dec_of(ii)
    }
}

/// Whether some argument carries this name.
pub open spec fn has_name(names: Seq<Seq<char>>, c: Seq<char>) -> bool {
    exists|k: int| 0 <= k < names.len() && names[k] == c
}

/// The first out-parameter name that collides with no argument, trying
/// `object`, then `object2`, `object3`, and so on; the fuel bounds the search
/// and always suffices for one more candidate than there are arguments.
pub open spec fn pick_return_var_spec(names: Seq<Seq<char>>, ii: int, fuel: nat) -> Seq<char>
    decreases fuel,
{
    let cand = object_candidate(ii);
    if fuel == 0 {
        cand
    } else if has_name(names, cand) {
        pick_return_var_spec(names, ii + 1, (fuel - 1) as nat)
    } else {
        cand
    }
}

/// The names of the wrapper arguments, in order.
pub open spec fn arg_names(args: Seq<RustFunctionArgumentV>) -> Seq<Seq<char>> {
    Seq::new(args.len(), |i: int| args[i].name)
}

/// A slot list of `n` empty slots.
pub open spec fn empty_slots(n: int) -> Seq<Option<Seq<char>>> {
    Seq::new(n as nat, |i: int| None)
}

/// The wrapper-body code of one boundary call: every argument marshalled into
/// its slot; when the return value leaves through an out-parameter, a fresh
/// named slot is allocated in an enclosing scope and read back after the
/// call; otherwise the call's result is marshalled out.
pub open spec fn generate_ffi_call_spec(
    args: Seq<RustFunctionArgumentV>,
    rt: CompleteTypeV,
    wd: RustFfiWrapperDataV,
    in_unsafe: bool,
    current: Seq<char>,
) -> Result<Seq<char>, GenError> {
    let us = unsafe_start(in_unsafe);
    let ue = unsafe_end(in_unsafe);
    let n = wd.cpp_ffi_function.arguments.len() as int;
    match fill_ffi_args_spec(args, empty_slots(n), current) {
        Err(e) => Err(e),
        Ok(fill) => match wd.return_type_ffi_index {
            Some(ri) => {
                let var = pick_return_var_spec(arg_names(args), 1, (args.len() + 1) as nat);
                let sn = if rt.rust_api_to_ffi_conversion == RustToFfiTypeConversion::CppBoxToPtr {
                    match rt.rust_api_type {
                        RustTypeV::Common { generic_arguments: Some(ga), .. } => if ga.len() == 0 {
                            Err(GenError::BoxEmptyArguments)
                        } else {
                            Ok(type_code_spec(ga[0], current))
                        },
                        RustTypeV::Common { generic_arguments: None, .. } => Err(
                            GenError::BoxWithoutArguments,
                        ),
                        _ => Err(GenError::BoxTypeExpected),
                    }
                } else {
                    Ok(type_code_spec(rt.rust_api_type, current))
                };
                match sn {
                    Err(e) => Err(e),
                    Ok(struct_name) => {
                        let fill2 = fill.update(ri, Some("&mut "@ + var));
                        if !all_present(fill2) {
                            Err(GenError::FfiArgumentMissing)
                        } else {
                            let joined = join_seqs(unwrap_all(fill2), ", "@);
                            Ok(
                                "{\nlet mut "@ + var + ": "@ + struct_name + " = "@ + us
                                    + "::cpp_utils::new_uninitialized::NewUninitialized::new_uninitialized()"@
                                    + ue + ";\n"@ + us + full_name_spec(
                                    wd.ffi_function_path,
                                    Some(current),
                                ) + "("@ + joined + ")"@ + ";"@ + ue + var + "\n}"@,
                            )
                        }
                    },
                }
            },
            None => {
                if !all_present(fill) {
                    Err(GenError::FfiArgumentMissing)
                } else {
                    let joined = join_seqs(unwrap_all(fill), ", "@);
                    let code = us + full_name_spec(wd.ffi_function_path, Some(current)) + "("@
                        + joined + ")"@ + ""@ + ue;
                    convert_from_ffi_spec(rt, code, in_unsafe, true, current)
                }
            },
        },
    }
}

/// The model of a vector of optional slot expressions.
pub open spec fn opts_view(v: &Vec<Option<String>>) -> Seq<Option<Seq<char>>> {
    Seq::new(v@.len(), |i: int| match v@[i] {
        Some(s) => Some(s@),
        None => None,
    })
}

/// Marshals one argument for its boundary slot.
fn ffi_arg_code(arg: &RustFunctionArgument, current_crate: &str) -> (r: Result<String, GenError>)
    ensures
        ({
            let s = arg_to_ffi_code_spec(arg@, current_crate@);
            match r {
                Ok(code) => s == Ok::<Seq<char>, GenError>(code@),
                Err(e) => s == Err::<Seq<char>, GenError>(e),
            }
        }),
{
    let t = &arg.argument_type;
    match t.rust_api_to_ffi_conversion {
        RustToFfiTypeConversion::NoConversion => Ok(arg.name.clone()),
        RustToFfiTypeConversion::OptionRefToPtr => Err(GenError::OptionRefNotSupportedHere),
        RustToFfiTypeConversion::RefToPtr => {
            let api_c = match t.rust_api_type.is_const() {
                Ok(c) => c,
                Err(e) => {
                    return Err(e);
                },
            };
            let ffi_c = match t.rust_ffi_type.is_const() {
                Ok(c) => c,
                Err(e) => {
                    return Err(e);
                },
            };
            if api_c && !ffi_c {
                let inter = match t.rust_ffi_type.set_const(true) {
                    Ok(i) => i,
                    Err(e) => {
                        return Err(e);
                    },
                };
                let mut out = arg.name.clone();
                out.append(" as ");
                let inter_code = rust_type_to_code(&inter, current_crate);
                out.append(inter_code.as_str());
                out.append(" as ");
                let ffi_code = rust_type_to_code(&t.rust_ffi_type, current_crate);
                out.append(ffi_code.as_str());
                Ok(out)
            } else {
                let mut out = arg.name.clone();
                out.append(" as ");
                let ffi_code = rust_type_to_code(&t.rust_ffi_type, current_crate);
                out.append(ffi_code.as_str());
                Ok(out)
            }
        },
        RustToFfiTypeConversion::ValueToPtr | RustToFfiTypeConversion::CppBoxToPtr => {
            let is_box = matches!(
                t.rust_api_to_ffi_conversion,
                RustToFfiTypeConversion::CppBoxToPtr
            );
            match &t.rust_ffi_type {
                RustType::PointerLike { is_const, .. } => {
                    if is_box {
                        let mut out = arg.name.clone();
                        out.append(".");
                        if *is_const {
                            out.append("as_ptr");
                        } else {
                            out.append("as_mut_ptr");
                        }
                        out.append("()");
                        Ok(out)
                    } else {
                        let mut out = String::new();
                        if *is_const {
                            out.append("&");
                        } else {
                            out.append("&mut ");
                        }
                        out.append(arg.name.as_str());
                        out.append(" as ");
                        let ffi_code = rust_type_to_code(&t.rust_ffi_type, current_crate);
                        out.append(ffi_code.as_str());
                        proof {
                            assert(out@ =~= arg_to_ffi_code_spec(
                                arg@,
                                current_crate@,
                            ).unwrap());
                        }
                        Ok(out)
                    }
                },
                _ => Err(GenError::VoidUnexpected),
            }
        },
        RustToFfiTypeConversion::QFlagsToUInt => {
            let mut out = arg.name.clone();
            out.append(".to_int() as ::libc::c_uint");
            Ok(out)
        },
    }
}

/// Whether some argument carries the candidate name.
fn name_collides(args: &Vec<RustFunctionArgument>, cand: &String) -> (r: bool)
    ensures
        r == has_name(arg_names(args_view(args)), cand@),
{
    let ghost names = arg_names(args_view(args));
    let mut i: usize = 0;
    while i < args.len()
        invariant
            names == arg_names(args_view(args)),
            i <= args@.len(),
            forall|k: int| 0 <= k < i ==> names[k] != cand@,
        decreases args@.len() - i,
    {
        if args[i].name == *cand {
            proof {
                assert(names[i as int] == cand@);
            }
            return true;
        }
        i = i + 1;
    }
    false
}

fn object_candidate_exec(ii: u64) -> (r: String)
    ensures
        r@ == object_candidate(ii as int),
{
    if ii <= 1 {
        String::from_str("object")
    } else {
        let mut s = String::from_str("object");
        let digits = u64_to_dec_string(ii);
        s.append(digits.as_str());
        s
    }
}

/// Picks the out-parameter name: the first suffixed candidate that collides
/// with no argument name.
fn pick_return_var(args: &Vec<RustFunctionArgument>) -> (r: String)
    requires
        args@.len() < 1000000,
    ensures
        r@ == pick_return_var_spec(arg_names(args_view(args)), 1, (args@.len() + 1) as nat),
{
    let ghost names = arg_names(args_view(args));
    let mut ii: u64 = 1;
    let mut fuel: u64 = (args.len() as u64) + 1;
    let mut cand = object_candidate_exec(1);
    while fuel > 0
        invariant
            args@.len() < 1000000,
            names == arg_names(args_view(args)),
            ii >= 1,
            fuel as int == args@.len() + 2 - ii,
            cand@ == object_candidate(ii as int),
            pick_return_var_spec(names, 1, (args@.len() + 1) as nat) == pick_return_var_spec(
                names,
                ii as int,
                fuel as nat,
            ),
        decreases fuel,
    {
        let coll = name_collides(args, &cand);
        if !coll {
            return cand;
        }
        ii = ii + 1;
        fuel = fuel - 1;
        cand = object_candidate_exec(ii);
    }
    cand
}

} // verus!

verus! {

/// Collects the slot expressions, reporting a slot that never received one.
fn collect_present(v: &Vec<Option<String>>) -> (r: Result<Vec<String>, GenError>)
    ensures
        match r {
            Ok(c) => all_present(opts_view(v)) && c.deep_view() == unwrap_all(opts_view(v)),
            Err(e) => !all_present(opts_view(v)) && e == GenError::FfiArgumentMissing,
        },
{
    let mut out: Vec<String> = Vec::new();
    let mut i: usize = 0;
    while i < v.len()
        invariant
            i <= v@.len(),
            out@.len() == i,
            forall|k: int| 0 <= k < i ==> opts_view(v)[k] is Some,
            forall|k: int| 0 <= k < i ==> #[trigger] out@[k]@ == opts_view(v)[k].unwrap(),
        decreases v@.len() - i,
    {
        match &v[i] {
            Some(s) => out.push(s.clone()),
            None => {
                proof {
                    assert(opts_view(v)[i as int] is None);
                }
                return Err(GenError::FfiArgumentMissing);
            },
        }
        i = i + 1;
    }
    proof {
        lemma_unwrap_all(opts_view(v));
        assert(out.deep_view() =~= unwrap_all(opts_view(v)));
    }
    Ok(out)
}

impl Generator {
    /// Emits the wrapper-body code that calls the flattened boundary function:
    /// each argument is marshalled into its slot, a return value leaving
    /// through an out-parameter gets a fresh uninitialized slot in an
    /// enclosing scope, and any other return value is marshalled out of the
    /// call expression.
    pub fn generate_ffi_call(
        &self,
        arguments: &Vec<RustFunctionArgument>,
        return_type: &CompleteType,
        wrapper_data: &RustFfiWrapperData,
        in_unsafe_context: bool,
    ) -> (r: Result<String, GenError>)
        requires
            arguments@.len() < 1000000,
            forall|i: int| 0 <= i < arguments@.len() ==> 0 <= #[trigger] args_view(
                arguments,
            )[i].ffi_index < wrapper_data@.cpp_ffi_function.arguments.len(),
            wrapper_data@.return_type_ffi_index matches Some(ri) ==> 0 <= ri
                < wrapper_data@.cpp_ffi_function.arguments.len(),
        ensures
            ({
                let s = generate_ffi_call_spec(
                    args_view(arguments),
                    return_type@,
                    wrapper_data@,
                    in_unsafe_context,
                    self.crate_name@,
                );
                match r {
                    Ok(code) => s == Ok::<Seq<char>, GenError>(code@),
                    Err(e) => s == Err::<Seq<char>, GenError>(e),
                }
            }),
    {
        proof {
            reveal_strlit("");
        }
        let ghost args_v = args_view(arguments);
        let ghost spec_r = generate_ffi_call_spec(
            args_v,
            return_type@,
            wrapper_data@,
            in_unsafe_context,
            self.crate_name@,
        );
        let us: &str = if in_unsafe_context {
            ""
        } else {
            "unsafe { "
        };
        let ue: &str = if in_unsafe_context {
            ""
        } else {
            " }"
        };
        let n = wrapper_data.cpp_ffi_function.arguments.len();
        let mut final_args: Vec<Option<String>> = Vec::new();
        let mut i: usize = 0;
        while i < n
            invariant
                i <= n,
                final_args@.len() == i,
                forall|k: int| 0 <= k < i ==> #[trigger] final_args@[k] is None,
            decreases n - i,
        {
            final_args.push(None);
            i = i + 1;
        }
        let ghost init0 = opts_view(&final_args);
        proof {
            assert(init0 =~= empty_slots(wrapper_data@.cpp_ffi_function.arguments.len() as int));
            assert(args_v.skip(0) =~= args_v);
        }
        let mut ai: usize = 0;
        while ai < arguments.len()
            invariant
                arguments@.len() < 1000000,
                ai <= arguments@.len(),
                args_v == args_view(arguments),
                final_args@.len() == wrapper_data@.cpp_ffi_function.arguments.len(),
                forall|i2: int| 0 <= i2 < arguments@.len() ==> 0 <= #[trigger] args_view(
                    arguments,
                )[i2].ffi_index < wrapper_data@.cpp_ffi_function.arguments.len(),
                init0 == empty_slots(wrapper_data@.cpp_ffi_function.arguments.len() as int),
                spec_r == generate_ffi_call_spec(
                    args_v,
                    return_type@,
                    wrapper_data@,
                    in_unsafe_context,
                    self.crate_name@,
                ),
                fill_ffi_args_spec(args_v, init0, self.crate_name@) == fill_ffi_args_spec(
                    args_v.skip(ai as int),
                    opts_view(&final_args),
                    self.crate_name@,
                ),
            decreases arguments@.len() - ai,
        {
            let ghost prev = opts_view(&final_args);
            let ghost rem = args_v.skip(ai as int);
            proof {
                assert(rem[0] == args_v[ai as int]);
                assert(rem.drop_first() =~= args_v.skip(ai + 1 as int));
            }
            let code = match ffi_arg_code(&arguments[ai], self.crate_name.as_str()) {
                Ok(c) => c,
                Err(e) => {
                    return Err(e);
                },
            };
            let idx = arguments[ai].ffi_index;
            final_args.set(idx, Some(code));
            proof {
                assert(opts_view(&final_args) =~= prev.update(
                    args_v[ai as int].ffi_index,
                    Some(code@),
                ));
            }
            ai = ai + 1;
        }
        proof {
            assert(args_v.skip(arguments@.len() as int) =~= Seq::<RustFunctionArgumentV>::empty());
        }
        let ghost fill = opts_view(&final_args);
        match &wrapper_data.return_type_ffi_index {
            Some(ri_ref) => {
                let ri: usize = *ri_ref;
                let var = pick_return_var(arguments);
                let is_box = matches!(
                    return_type.rust_api_to_ffi_conversion,
                    RustToFfiTypeConversion::CppBoxToPtr
                );
                let struct_name: String = if is_box {
                    match &return_type.rust_api_type {
                        RustType::Common { generic_arguments: Some(ga), .. } => {
                            proof {
                                crate::rust_type::lemma_types_seq_view(ga@);
                            }
                            if ga.len() == 0 {
                                return Err(GenError::BoxEmptyArguments);
                            } else {
                                rust_type_to_code(&ga[0], self.crate_name.as_str())
                            }
                        },
                        RustType::Common { generic_arguments: None, .. } => {
                            return Err(GenError::BoxWithoutArguments);
                        },
                        _ => {
                            return Err(GenError::BoxTypeExpected);
                        },
                    }
                } else {
                    rust_type_to_code(&return_type.rust_api_type, self.crate_name.as_str())
                };
                let mut amp_var = String::from_str("&mut ");
                amp_var.append(var.as_str());
                final_args.set(ri, Some(amp_var));
                proof {
                    assert(opts_view(&final_args) =~= fill.update(
                        ri as int,
                        Some("&mut "@ + var@),
                    ));
                }
                let codes = match collect_present(&final_args) {
                    Ok(c) => c,
                    Err(e) => {
                        return Err(e);
                    },
                };
                let joined = join_strings(&codes, ", ");
                let path_code = wrapper_data.ffi_function_path.full_name(
                    Some(self.crate_name.as_str()),
                );
                let mut out = String::from_str("{\nlet mut ");
                out.append(var.as_str());
                out.append(": ");
                out.append(struct_name.as_str());
                out.append(" = ");
                out.append(us);
                out.append("::cpp_utils::new_uninitialized::NewUninitialized::new_uninitialized()");
                out.append(ue);
                out.append(";\n");
                out.append(us);
                out.append(path_code.as_str());
                out.append("(");
                out.append(joined.as_str());
                out.append(")");
                out.append(";");
                out.append(ue);
                out.append(var.as_str());
                out.append("\n}");
                proof {
                    assert(spec_r is Ok && out@ =~= spec_r.unwrap());
                }
                Ok(out)
            },
            None => {
                let codes = match collect_present(&final_args) {
                    Ok(c) => c,
                    Err(e) => {
                        return Err(e);
                    },
                };
                let joined = join_strings(&codes, ", ");
                let path_code = wrapper_data.ffi_function_path.full_name(
                    Some(self.crate_name.as_str()),
                );
                let mut code = String::from_str(us);
                code.append(path_code.as_str());
                code.append("(");
                code.append(joined.as_str());
                code.append(")");
                code.append("");
                code.append(ue);
                proof {
                    assert(code@ =~= unsafe_start(in_unsafe_context) + full_name_spec(
                        wrapper_data@.ffi_function_path,
                        Some(self.crate_name@),
                    ) + "("@ + join_seqs(unwrap_all(fill), ", "@) + ")"@ + ""@ + unsafe_end(
                        in_unsafe_context,
                    ));
                }
                self.convert_type_from_ffi(return_type, code, in_unsafe_context, true)
            },
        }
    }
}

} // verus!

verus! {

/// The declaration text of one wrapper argument: the receiver is rendered as
/// a plain or borrowed `self` per its wrapper type, and an aggregate passed
/// through a mutable out-slot is declared mutable.
pub open spec fn arg_text_spec(
    arg: RustFunctionArgumentV,
    lifetime: Option<Seq<char>>,
    current: Seq<char>,
) -> Seq<char> {
    if arg.name == "self"@ {
        let self_type = match lifetime {
            Some(lt) => with_lifetime_spec(arg.argument_type.rust_api_type, lt),
            None => arg.argument_type.rust_api_type,
        };
        match self_type {
            RustTypeV::Common { .. } => "self"@,
            RustTypeV::PointerLike { kind, is_const, .. } => {
                let maybe_mut = if is_const {
                    ""@
                } else {
                    "mut "@
                };
                match kind {
                    RustPointerLikeTypeKindV::Reference { lifetime: lt2 } => match lt2 {
                        Some(l) => "&'"@ + l + " "@ + maybe_mut + "self"@,
                        None => "&"@ + maybe_mut + "self"@,
                    },
                    _ => Seq::empty(),
                }
            },
            _ => Seq::empty(),
        }
    } else {
        let maybe_mut = if arg.argument_type.rust_api_type is Common
            && arg.argument_type.rust_api_to_ffi_conversion == RustToFfiTypeConversion::ValueToPtr
            && (arg.argument_type.rust_ffi_type matches RustTypeV::PointerLike {
            is_const: false,
            ..
        }) {
            "mut "@
        } else {
            ""@
        };
        let t = match lifetime {
            Some(lt) => with_lifetime_spec(arg.argument_type.rust_api_type, lt),
            None => arg.argument_type.rust_api_type,
        };
        maybe_mut + arg.name + ": "@ + type_code_spec(t, current)
    }
}

/// The declaration texts of the wrapper arguments, in order.
pub open spec fn arg_texts_spec(
    args: Seq<RustFunctionArgumentV>,
    lifetime: Option<Seq<char>>,
    current: Seq<char>,
) -> Seq<Seq<char>> {
    Seq::new(args.len(), |i: int| arg_text_spec(args[i], lifetime, current))
}

impl Generator {
    /// Renders the declaration of one wrapper argument.
    fn arg_text(&self, arg: &RustFunctionArgument, lifetime: Option<&String>) -> (r: String)
        requires
            self_arg_wf(arg@),
        ensures
            r@ == arg_text_spec(arg@, match lifetime {
                Some(l) => Some(l@),
                None => None,
            }, self.crate_name@),
    {
        proof {
            reveal_strlit("self");
        }
        let is_self = arg.name == String::from_str("self");
        if is_self {
            let self_type: RustType = match lifetime {
                Some(lt) => arg.argument_type.rust_api_type.with_lifetime(lt.as_str()),
                None => arg.argument_type.rust_api_type.duplicate(),
            };
            match &self_type {
                RustType::Common { .. } => String::from_str("self"),
                RustType::PointerLike { kind, is_const, .. } => {
                    match kind {
                        RustPointerLikeTypeKind::Reference { lifetime: lt2 } => {
                            let mut out = String::new();
                            match lt2 {
                                Some(l) => {
                                    out.append("&'");
                                    out.append(l.as_str());
                                    out.append(" ");
                                },
                                None => out.append("&"),
                            }
                            if !*is_const {
                                out.append("mut ");
                            } else {
                                out.append("");
                            }
                            out.append("self");
                            proof {
                                assert(out@ =~= arg_text_spec(arg@, match lifetime {
                                    Some(l) => Some(l@),
                                    None => None,
                                }, self.crate_name@));
                            }
                            out
                        },
                        _ => vstd::pervasive::unreached(),
                    }
                },
                _ => vstd::pervasive::unreached(),
            }
        } else {
            let mut out = String::new();
            let is_mut_value = matches!(&arg.argument_type.rust_api_type, RustType::Common { .. })
                && matches!(
                arg.argument_type.rust_api_to_ffi_conversion,
                RustToFfiTypeConversion::ValueToPtr
            ) && matches!(
                &arg.argument_type.rust_ffi_type,
                RustType::PointerLike { is_const: false, .. }
            );
            if is_mut_value {
                out.append("mut ");
            } else {
                out.append("");
            }
            out.append(arg.name.as_str());
            out.append(": ");
            let t: RustType = match lifetime {
                Some(lt) => arg.argument_type.rust_api_type.with_lifetime(lt.as_str()),
                None => arg.argument_type.rust_api_type.duplicate(),
            };
            let t_code = rust_type_to_code(&t, self.crate_name.as_str());
            out.append(t_code.as_str());
            proof {
                assert(out@ =~= arg_text_spec(arg@, match lifetime {
                    Some(l) => Some(l@),
                    None => None,
                }, self.crate_name@));
            }
            out
        }
    }

    /// Renders the declarations of a wrapper function's arguments.
    pub fn arg_texts(&self, args: &Vec<RustFunctionArgument>, lifetime: Option<&String>) -> (r:
        Vec<String>)
        requires
            forall|i: int| 0 <= i < args@.len() ==> self_arg_wf(#[trigger] args_view(args)[i]),
        ensures
            r.deep_view() == arg_texts_spec(args_view(args), match lifetime {
                Some(l) => Some(l@),
                None => None,
            }, self.crate_name@),
    {
        let ghost lt_v = match lifetime {
            Some(l) => Some(l@),
            None => None::<Seq<char>>,
        };
        let mut out: Vec<String> = Vec::new();
        let mut i: usize = 0;
        while i < args.len()
            invariant
                i <= args@.len(),
                out@.len() == i,
                lt_v == (match lifetime {
                    Some(l) => Some(l@),
                    None => None::<Seq<char>>,
                }),
                forall|k: int| 0 <= k < args@.len() ==> self_arg_wf(#[trigger] args_view(args)[k]),
                forall|k: int| 0 <= k < i ==> out@[k]@ == arg_text_spec(
                    args_view(args)[k],
                    lt_v,
                    self.crate_name@,
                ),
            decreases args@.len() - i,
        {
            proof {
                assert(args_view(args)[i as int] == args@[i as int]@);
            }
            let text = match lifetime {
                Some(l) => self.arg_text(&args[i], Some(l)),
                None => self.arg_text(&args[i], None),
            };
            out.push(text);
            i = i + 1;
        }
        proof {
            assert(out.deep_view() =~= arg_texts_spec(args_view(args), lt_v, self.crate_name@));
        }
        out
    }
}

} // verus!

verus! {

/// The lifetimes of the reference-typed arguments, in order.
pub open spec fn lifetimes_of(args: Seq<RustFunctionArgumentV>) -> Seq<Seq<char>>
    decreases args.len(),
{
    if args.len() == 0 {
        Seq::empty()
    } else {
        let head = match lifetime_spec(args[0].argument_type.rust_api_type) {
            Some(l) => seq![l],
            None => Seq::empty(),
        };
        head + lifetimes_of(args.drop_first())
    }
}

proof fn lemma_lifetimes_push(args: Seq<RustFunctionArgumentV>, a: RustFunctionArgumentV)
    ensures
        lifetimes_of(args.push(a)) == lifetimes_of(args) + (match lifetime_spec(
            a.argument_type.rust_api_type,
        ) {
            Some(l) => seq![l],
            None => Seq::empty(),
        }),
    decreases args.len(),
{
    let tail = match lifetime_spec(a.argument_type.rust_api_type) {
        Some(l) => seq![l],
        None => Seq::<Seq<char>>::empty(),
    };
    if args.len() == 0 {
        let sp = args.push(a);
        assert(sp.drop_first() =~= Seq::<RustFunctionArgumentV>::empty());
        assert(sp[0] == a);
        assert(lifetimes_of(sp) == tail + lifetimes_of(Seq::<RustFunctionArgumentV>::empty()));
        assert(lifetimes_of(Seq::<RustFunctionArgumentV>::empty()) =~= Seq::<Seq<char>>::empty());
        assert(lifetimes_of(sp) =~= lifetimes_of(args) + tail);
    } else {
        assert(args.push(a).drop_first() =~= args.drop_first().push(a));
        lemma_lifetimes_push(args.drop_first(), a);
        assert(lifetimes_of(args.push(a)) =~= lifetimes_of(args) + tail);
    }
}

/// The lifetimes with their tick marks, ready for a generic parameter list.
pub open spec fn ticks_of(ls: Seq<Seq<char>>) -> Seq<Seq<char>> {
    Seq::new(ls.len(), |i: int| "'"@ + ls[i])
}

/// The complete text of one wrapper function: its documentation, visibility,
/// unsafety, name, the lifetimes derived from its reference arguments, its
/// argument declarations, its return type, and the marshalling body.
pub open spec fn function_code_spec(f: RustFunctionV, current: Seq<char>) -> Result<
    Seq<char>,
    GenError,
> {
    let body = match f.kind {
        RustFunctionKindV::FfiWrapper(d) => generate_ffi_call_spec(
            f.arguments,
            f.return_type,
            d,
            f.is_unsafe,
            current,
        ),
        RustFunctionKindV::CppDeletableImpl { deleter } => Ok(full_name_spec(deleter, Some(current))),
        RustFunctionKindV::SignalOrSlotGetter => Ok(Seq::empty()),
    };
    match body {
        Err(e) => Err(e),
        Ok(body) => {
            let maybe_pub = match f.scope {
                RustFunctionScope::TraitImpl => ""@,
                _ => "pub "@,
            };
            let maybe_unsafe = if f.is_unsafe {
                "unsafe "@
            } else {
                ""@
            };
            let rts = if f.return_type.rust_api_type is EmptyTuple {
                ""@
            } else {
                " -> "@ + type_code_spec(f.return_type.rust_api_type, current)
            };
            let lts = lifetimes_of(f.arguments);
            let lifetimes_text = if lts.len() == 0 {
                ""@
            } else {
                "<"@ + join_seqs(ticks_of(lts), ", "@) + ">"@
            };
            Ok(
                format_doc_spec(f.doc, false) + maybe_pub + maybe_unsafe + "fn "@ + f.path.last()
                    + lifetimes_text + "("@ + join_seqs(
                    arg_texts_spec(f.arguments, None, current),
                    ", "@,
                ) + ")"@ + rts + " {\n"@ + body + "}\n\n\n"@,
            )
        },
    }
}

impl Generator {
    /// Emits the complete text of one wrapper function.
    #[verifier::rlimit(60)]
    pub fn generate_rust_final_function(&self, func: &RustFunction) -> (r: Result<String, GenError>)
        requires
            function_wf(func@),
            func@.arguments.len() < 1000000,
        ensures
            ({
                let s = function_code_spec(func@, self.crate_name@);
                match r {
                    Ok(code) => s == Ok::<Seq<char>, GenError>(code@),
                    Err(e) => s == Err::<Seq<char>, GenError>(e),
                }
            }),
    {
        proof {
            reveal_strlit("");
        }
        let body: String = match &func.kind {
            RustFunctionKind::FfiWrapper(d) => {
                match self.generate_ffi_call(&func.arguments, &func.return_type, d, func.is_unsafe)
                {
                    Ok(b) => b,
                    Err(e) => {
                        return Err(e);
                    },
                }
            },
            RustFunctionKind::CppDeletableImpl { deleter } => deleter.full_name(
                Some(self.crate_name.as_str()),
            ),
            RustFunctionKind::SignalOrSlotGetter => vstd::pervasive::unreached(),
        };
        let mut out = format_doc(func.doc.as_str());
        match func.scope {
            RustFunctionScope::TraitImpl => out.append(""),
            _ => out.append("pub "),
        }
        if func.is_unsafe {
            out.append("unsafe ");
        } else {
            out.append("");
        }
        out.append("fn ");
        let name = func.path.last();
        out.append(name.as_str());
        let ghost lts = lifetimes_of(func@.arguments);
        let mut lifetime_names: Vec<String> = Vec::new();
        let mut i: usize = 0;
        while i < func.arguments.len()
            invariant
                i <= func.arguments@.len(),
                lts == lifetimes_of(args_view(&func.arguments)),
                lifetime_names.deep_view() == lifetimes_of(
                    args_view(&func.arguments).take(i as int),
                ),
            decreases func.arguments@.len() - i,
        {
            let ghost args_v = args_view(&func.arguments);
            proof {
                assert(args_v[i as int] == func.arguments@[i as int]@);
            }
            match func.arguments[i].argument_type.rust_api_type.lifetime() {
                Some(l) => lifetime_names.push(l.clone()),
                None => {},
            }
            proof {
                lemma_lifetimes_push(args_v.take(i as int), args_v[i as int]);
                assert(args_v.take(i + 1 as int) =~= args_v.take(i as int).push(args_v[i as int]));
                assert(lifetime_names.deep_view() =~= lifetimes_of(args_v.take(i + 1 as int)));
            }
            i = i + 1;
        }
        proof {
            assert(args_view(&func.arguments).take(func.arguments@.len() as int) =~= args_view(
                &func.arguments,
            ));
        }
        if lifetime_names.len() == 0 {
            out.append("");
        } else {
            out.append("<");
            let mut ticks: Vec<String> = Vec::new();
            let mut k: usize = 0;
            while k < lifetime_names.len()
                invariant
                    k <= lifetime_names@.len(),
                    ticks@.len() == k,
                    forall|m: int| 0 <= m < k ==> ticks@[m]@ == "'"@ + lifetime_names@[m]@,
                decreases lifetime_names@.len() - k,
            {
                let mut t = String::from_str("'");
                t.append(lifetime_names[k].as_str());
                ticks.push(t);
                k = k + 1;
            }
            proof {
                assert(ticks.deep_view() =~= ticks_of(lifetime_names.deep_view()));
            }
            let joined = join_strings(&ticks, ", ");
            out.append(joined.as_str());
            out.append(">");
        }
        out.append("(");
        let texts = self.arg_texts(&func.arguments, None);
        let args_joined = join_strings(&texts, ", ");
        out.append(args_joined.as_str());
        out.append(")");
        match &func.return_type.rust_api_type {
            RustType::EmptyTuple => out.append(""),
            rt => {
                out.append(" -> ");
                let rt_code = rust_type_to_code(rt, self.crate_name.as_str());
                out.append(rt_code.as_str());
            },
        }
        out.append(" {\n");
        out.append(body.as_str());
        out.append("}\n\n\n");
        proof {
            crate::rust_type::lemma_view_empty_tuple(func.return_type.rust_api_type);
            assert(function_code_spec(func@, self.crate_name@) is Ok);
            assert(out@ =~= function_code_spec(func@, self.crate_name@).unwrap());
        }
        Ok(out)
    }
}

} // verus!

verus! {

/// The constant text of one produced enumerator: its documentation, then a
/// constant of the wrapping single-field type holding the native value.
pub open spec fn enum_value_code_spec(v: RustEnumValueV, current: Seq<char>) -> Seq<char> {
    let struct_path = full_name_spec(v.path.drop_last(), Some(current));
    format_doc_spec(v.doc, false) + "\n"@ + "pub const "@ + v.path.last() + ": "@ + struct_path
        + " = "@ + struct_path + "("@ + dec_of_int(v.value) + ");\n"@
}

/// The boundary declaration of one flattened function.
pub open spec fn ffi_function_code_spec(f: RustFFIFunctionV, current: Seq<char>) -> Seq<char> {
    let args = Seq::new(
        f.arguments.len(),
        |i: int| f.arguments[i].name + ": "@ + type_code_spec(f.arguments[i].argument_type, current),
    );
    let rts = if f.return_type is EmptyTuple {
        ""@
    } else {
        " -> "@ + type_code_spec(f.return_type, current)
    };
    "  pub fn "@ + f.path.last() + "("@ + join_seqs(args, ", "@) + ")"@ + rts + ";\n"@
}

impl Generator {
    /// Emits the constant declaring one produced enumerator.
    pub fn generate_enum_value(&self, value: &RustEnumValue) -> (r: String)
        requires
            value@.path.len() >= 2,
        ensures
            r@ == enum_value_code_spec(value@, self.crate_name@),
    {
        let mut out = format_doc(value.doc.as_str());
        out.append("\n");
        let parent = match value.path.parent() {
            Some(p) => p,
            None => vstd::pervasive::unreached(),
        };
        let struct_path = parent.full_name(Some(self.crate_name.as_str()));
        out.append("pub const ");
        let name = value.path.last();
        out.append(name.as_str());
        out.append(": ");
        out.append(struct_path.as_str());
        out.append(" = ");
        out.append(struct_path.as_str());
        out.append("(");
        let value_text = i64_to_dec_string(value.value);
        out.append(value_text.as_str());
        out.append(");\n");
        proof {
            assert(out@ =~= enum_value_code_spec(value@, self.crate_name@));
        }
        out
    }

    /// Emits the boundary declaration of one flattened function.
    pub fn rust_ffi_function_to_code(&self, func: &RustFFIFunction) -> (r: String)
        requires
            func@.path.len() > 0,
        ensures
            r@ == ffi_function_code_spec(func@, self.crate_name@),
    {
        let ghost args_spec = Seq::new(
            func@.arguments.len(),
            |i: int| func@.arguments[i].name + ": "@ + type_code_spec(
                func@.arguments[i].argument_type,
                self.crate_name@,
            ),
        );
        let mut arg_texts: Vec<String> = Vec::new();
        let mut i: usize = 0;
        while i < func.arguments.len()
            invariant
                i <= func.arguments@.len(),
                arg_texts@.len() == i,
                args_spec == Seq::new(
                    ffi_args_view(&func.arguments).len(),
                    |k: int| ffi_args_view(&func.arguments)[k].name + ": "@ + type_code_spec(
                        ffi_args_view(&func.arguments)[k].argument_type,
                        self.crate_name@,
                    ),
                ),
                forall|k: int| 0 <= k < i ==> arg_texts@[k]@ == args_spec[k],
            decreases func.arguments@.len() - i,
        {
            let mut t = func.arguments[i].name.clone();
            t.append(": ");
            let tc = rust_type_to_code(&func.arguments[i].argument_type, self.crate_name.as_str());
            t.append(tc.as_str());
            proof {
                assert(ffi_args_view(&func.arguments)[i as int] == func.arguments@[i as int]@);
                assert(t@ == args_spec[i as int]);
            }
            arg_texts.push(t);
            i = i + 1;
        }
        let joined = join_strings(&arg_texts, ", ");
        let mut out = String::from_str("  pub fn ");
        let name = func.path.last();
        out.append(name.as_str());
        out.append("(");
        out.append(joined.as_str());
        out.append(")");
        match &func.return_type {
            RustType::EmptyTuple => out.append(""),
            rt => {
                out.append(" -> ");
                let rc = rust_type_to_code(rt, self.crate_name.as_str());
                out.append(rc.as_str());
            },
        }
        out.append(";\n");
        proof {
            crate::rust_type::lemma_view_empty_tuple(func.return_type);
            assert(arg_texts.deep_view() =~= args_spec);
            assert(out@ =~= ffi_function_code_spec(func@, self.crate_name@));
        }
        out
    }
}

/// The texts of a run of produced functions, the first failure stopping the
/// run.
pub open spec fn fns_code_from(fs: Seq<RustFunctionV>, i: int, current: Seq<char>) -> Result<
    Seq<char>,
    GenError,
>
    decreases fs.len() - i,
{
    if i < 0 || i >= fs.len() {
        Ok(Seq::empty())
    } else {
        match function_code_spec(fs[i], current) {
            Err(e) => Err(e),
            Ok(t) => match fns_code_from(fs, i + 1, current) {
                Err(e) => Err(e),
                Ok(rest) => Ok(t + rest),
            },
        }
    }
}

/// The text of one produced trait impl: its header, its associated types, and
/// its functions in order.
pub open spec fn trait_impl_code_spec(t: RustTraitImplV, current: Seq<char>) -> Result<
    Seq<char>,
    GenError,
> {
    let assoc = Seq::new(
        t.associated_types.len(),
        |i: int| "type "@ + t.associated_types[i].name + " = "@ + type_code_spec(
            t.associated_types[i].value,
            current,
        ) + ";"@,
    );
    match fns_code_from(t.functions, 0, current) {
        Err(e) => Err(e),
        Ok(fns_text) => Ok(
            "impl "@ + type_code_spec(t.trait_type, current) + " for "@ + type_code_spec(
                t.target_type,
                current,
            ) + " {\n"@ + join_seqs(assoc, "\n"@) + "\n"@ + fns_text + "}\n"@ + "\n"@,
        ),
    }
}

impl Generator {
    /// Emits one produced trait impl.
    pub fn generate_trait_impl(&self, trait1: &RustTraitImpl) -> (r: Result<String, GenError>)
        requires
            forall|i: int| 0 <= i < trait1@.functions.len() ==> function_wf(
                #[trigger] trait1@.functions[i],
            ) && trait1@.functions[i].arguments.len() < 1000000,
        ensures
            ({
                let s = trait_impl_code_spec(trait1@, self.crate_name@);
                match r {
                    Ok(code) => s == Ok::<Seq<char>, GenError>(code@),
                    Err(e) => s == Err::<Seq<char>, GenError>(e),
                }
            }),
    {
        let ghost fs = fns_view(&trait1.functions);
        let ghost assoc_spec = Seq::new(
            trait1@.associated_types.len(),
            |i: int| "type "@ + trait1@.associated_types[i].name + " = "@ + type_code_spec(
                trait1@.associated_types[i].value,
                self.crate_name@,
            ) + ";"@,
        );
        let mut assoc_texts: Vec<String> = Vec::new();
        let mut i: usize = 0;
        while i < trait1.associated_types.len()
            invariant
                i <= trait1.associated_types@.len(),
                assoc_texts@.len() == i,
                assoc_spec == Seq::new(
                    assoc_types_view(&trait1.associated_types).len(),
                    |k: int| "type "@ + assoc_types_view(&trait1.associated_types)[k].name + " = "@
                        + type_code_spec(
                        assoc_types_view(&trait1.associated_types)[k].value,
                        self.crate_name@,
                    ) + ";"@,
                ),
                forall|k: int| 0 <= k < i ==> assoc_texts@[k]@ == assoc_spec[k],
            decreases trait1.associated_types@.len() - i,
        {
            let at = &trait1.associated_types[i];
            let mut t = String::from_str("type ");
            t.append(at.name.as_str());
            t.append(" = ");
            let vc = rust_type_to_code(&at.value, self.crate_name.as_str());
            t.append(vc.as_str());
            t.append(";");
            proof {
                assert(assoc_types_view(&trait1.associated_types)[i as int]
                    == trait1.associated_types@[i as int]@);
                assert(t@ == assoc_spec[i as int]);
            }
            assoc_texts.push(t);
            i = i + 1;
        }
        let assoc_joined = join_strings(&assoc_texts, "\n");
        let mut fns_text = String::new();
        let mut j: usize = 0;
        proof {
            assert(assoc_texts.deep_view() =~= assoc_spec);
        }
        while j < trait1.functions.len()
            invariant
                j <= trait1.functions@.len(),
                fs == fns_view(&trait1.functions),
                forall|k: int| 0 <= k < trait1@.functions.len() ==> function_wf(
                    #[trigger] trait1@.functions[k],
                ) && trait1@.functions[k].arguments.len() < 1000000,
                self.crate_name@ == self.crate_name@,
                ({
                    let total = fns_code_from(fs, 0, self.crate_name@);
                    match fns_code_from(fs, j as int, self.crate_name@) {
                        Err(e) => total == Err::<Seq<char>, GenError>(e),
                        Ok(rest) => total == Ok::<Seq<char>, GenError>(fns_text@ + rest),
                    }
                }),
            decreases trait1.functions@.len() - j,
        {
            proof {
                assert(fs[j as int] == trait1.functions@[j as int]@);
            }
            let ghost acc0 = fns_text@;
            let t = match self.generate_rust_final_function(&trait1.functions[j]) {
                Ok(t) => t,
                Err(e) => {
                    return Err(e);
                },
            };
            fns_text.append(t.as_str());
            proof {
                let c = self.crate_name@;
                if fns_code_from(fs, j + 1 as int, c) is Ok {
                    let rest2 = fns_code_from(fs, j + 1 as int, c)->Ok_0;
                    assert((acc0 + t@) + rest2 =~= acc0 + (t@ + rest2));
                }
            }
            j = j + 1;
        }
        proof {
            assert(fns_code_from(fs, trait1.functions@.len() as int, self.crate_name@) == Ok::<
                Seq<char>,
                GenError,
            >(Seq::<char>::empty()));
            assert(fns_text@ + Seq::<char>::empty() =~= fns_text@);
        }
        let mut out = String::from_str("impl ");
        let tc = rust_type_to_code(&trait1.trait_type, self.crate_name.as_str());
        out.append(tc.as_str());
        out.append(" for ");
        let gc = rust_type_to_code(&trait1.target_type, self.crate_name.as_str());
        out.append(gc.as_str());
        out.append(" {\n");
        out.append(assoc_joined.as_str());
        out.append("\n");
        out.append(fns_text.as_str());
        out.append("}\n");
        out.append("\n");
        proof {
            assert(trait_impl_code_spec(trait1@, self.crate_name@) is Ok);
            assert(out@ =~= trait_impl_code_spec(trait1@, self.crate_name@).unwrap());
        }
        Ok(out)
    }
}

} // verus!

verus! {

/// One group of boundary declarations sharing an originating header.
#[derive(Debug, PartialEq, Eq)]
pub struct FfiFunctionGroup {
    pub include_file: String,
    pub functions: Vec<RustFFIFunction>,
}

/// Mathematical model of a [`FfiFunctionGroup`].
#[verifier::ext_equal]
pub ghost struct FfiFunctionGroupV {
    pub include_file: Seq<char>,
    pub functions: Seq<RustFFIFunctionV>,
}

impl View for FfiFunctionGroup {
    type V = FfiFunctionGroupV;

    open spec fn view(&self) -> FfiFunctionGroupV {
        FfiFunctionGroupV {
            include_file: self.include_file@,
            functions: Seq::new(self.functions@.len(), |i: int| self.functions@[i]@),
        }
    }
}

/// The model of a vector of declaration groups.
pub open spec fn groups_view(v: &Vec<FfiFunctionGroup>) -> Seq<FfiFunctionGroupV> {
    Seq::new(v@.len(), |i: int| v@[i]@)
}

/// The declarations of one group, in order.
pub open spec fn ffi_fns_code_from(fs: Seq<RustFFIFunctionV>, i: int, current: Seq<char>) -> Seq<
    char,
>
    decreases fs.len() - i,
{
    if i < 0 || i >= fs.len() {
        Seq::empty()
    } else {
        ffi_function_code_spec(fs[i], current) + ffi_fns_code_from(fs, i + 1, current)
    }
}

/// The grouped declaration blocks, each under a comment naming its header.
pub open spec fn groups_code_from(gs: Seq<FfiFunctionGroupV>, i: int, current: Seq<char>) -> Seq<
    char,
>
    decreases gs.len() - i,
{
    if i < 0 || i >= gs.len() {
        Seq::empty()
    } else {
        "  // Header: "@ + gs[i].include_file + "\n"@ + ffi_fns_code_from(gs[i].functions, 0, current)
            + "\n"@ + groups_code_from(gs, i + 1, current)
    }
}

/// The whole boundary block: one flat declaration per boundary function,
/// grouped and commented by originating header, with no conversions.
pub open spec fn ffi_code_spec(gs: Seq<FfiFunctionGroupV>, current: Seq<char>) -> Seq<char> {
    "extern \"C\" {\n"@ + groups_code_from(gs, 0, current) + "}\n"@ + "\n"@
}

impl Generator {
    /// Emits the boundary declaration block.
    pub fn generate_ffi_code(&self, functions: &Vec<FfiFunctionGroup>) -> (r: String)
        requires
            forall|i: int, k: int|
                0 <= i < functions@.len() && 0 <= k < (#[trigger] groups_view(
                    functions,
                )[i]).functions.len() ==> (#[trigger] groups_view(functions)[i].functions[k]).path.len()
                    > 0,
        ensures
            r@ == ffi_code_spec(groups_view(functions), self.crate_name@),
    {
        let ghost gs = groups_view(functions);
        let mut code = String::from_str("extern \"C\" {\n");
        let mut i: usize = 0;
        while i < functions.len()
            invariant
                i <= functions@.len(),
                gs == groups_view(functions),
                forall|i2: int, k: int|
                    0 <= i2 < functions@.len() && 0 <= k < (#[trigger] groups_view(
                        functions,
                    )[i2]).functions.len() ==> (#[trigger] groups_view(
                        functions,
                    )[i2].functions[k]).path.len() > 0,
                ({
                    let total = "extern \"C\" {\n"@ + groups_code_from(gs, 0, self.crate_name@);
                    total == code@ + groups_code_from(gs, i as int, self.crate_name@)
                }),
            decreases functions@.len() - i,
        {
            let ghost acc0 = code@;
            let group = &functions[i];
            proof {
                assert(gs[i as int] == functions@[i as int]@);
            }
            code.append("  // Header: ");
            code.append(group.include_file.as_str());
            code.append("\n");
            let ghost fseq = gs[i as int].functions;
            let mut k: usize = 0;
            while k < group.functions.len()
                invariant
                    k <= group.functions@.len(),
                    fseq == Seq::new(group.functions@.len(), |m: int| group.functions@[m]@),
                    forall|m: int| 0 <= m < fseq.len() ==> (#[trigger] fseq[m]).path.len() > 0,
                    ({
                        let gtotal = acc0 + "  // Header: "@ + gs_group_file(gs, i as int) + "\n"@
                            + ffi_fns_code_from(fseq, 0, self.crate_name@);
                        gtotal == code@ + ffi_fns_code_from(fseq, k as int, self.crate_name@)
                    }),
                    gs_group_file(gs, i as int) == group@.include_file,
                decreases group.functions@.len() - k,
            {
                proof {
                    assert(fseq[k as int] == group.functions@[k as int]@);
                }
                let ghost acc1 = code@;
                let decl = self.rust_ffi_function_to_code(&group.functions[k]);
                code.append(decl.as_str());
                proof {
                    assert((acc1 + decl@) + ffi_fns_code_from(fseq, k + 1 as int, self.crate_name@)
                        =~= acc1 + (decl@ + ffi_fns_code_from(fseq, k + 1 as int, self.crate_name@)));
                }
                k = k + 1;
            }
            proof {
                assert(ffi_fns_code_from(fseq, group.functions@.len() as int, self.crate_name@)
                    =~= Seq::<char>::empty());
                assert(code@ + Seq::<char>::empty() =~= code@);
            }
            code.append("\n");
            proof {
                assert(("extern \"C\" {\n"@ + groups_code_from(gs, 0, self.crate_name@)) =~= code@
                    + groups_code_from(gs, i + 1 as int, self.crate_name@));
            }
            i = i + 1;
        }
        proof {
            assert(groups_code_from(gs, functions@.len() as int, self.crate_name@)
                =~= Seq::<char>::empty());
            assert(code@ + Seq::<char>::empty() =~= code@);
        }
        code.append("}\n");
        code.append("\n");
        proof {
            assert(code@ =~= ffi_code_spec(gs, self.crate_name@));
        }
        code
    }
}

/// The header name of one group; a helper for stating loop invariants.
pub open spec fn gs_group_file(gs: Seq<FfiFunctionGroupV>, i: int) -> Seq<char> {
    gs[i].include_file
}

} // verus!

verus! {

/// Whether `p` names a direct child of `parent` in the item tree.
pub open spec fn is_child_path(p: Seq<Seq<char>>, parent: Seq<Seq<char>>) -> bool {
    p.len() == parent.len() + 1 && p.take(parent.len() as int) == parent
}

/// Whether any item stands directly under `parent`.
pub open spec fn has_child(items: Seq<RustItemKindV>, parent: Seq<Seq<char>>) -> bool {
    exists|i: int|
        0 <= i < items.len() && is_child_path(item_path_spec(#[trigger] items[i]), parent)
}

/// Whether `p` names a direct child of `parent`.
pub fn path_is_child(p: &RustPath, parent: &RustPath) -> (r: bool)
    ensures
        r == is_child_path(p@, parent@),
{
    if p.parts.len() == 0 || p.parts.len() - 1 != parent.parts.len() {
        return false;
    }
    let mut i: usize = 0;
    while i < parent.parts.len()
        invariant
            p.parts@.len() == parent.parts@.len() + 1,
            i <= parent.parts@.len(),
            forall|k: int| 0 <= k < i ==> p@[k] == parent@[k],
        decreases parent.parts@.len() - i,
    {
        if !(p.parts[i] == parent.parts[i]) {
            proof {
                assert(p@.take(parent@.len() as int)[i as int] != parent@[i as int]);
            }
            return false;
        }
        i = i + 1;
    }
    proof {
        assert(p@.take(parent@.len() as int) =~= parent@);
    }
    true
}

/// Whether any item of the tree stands directly under `parent`.
pub fn db_has_children(db: &RustDatabase, parent: &RustPath) -> (r: bool)
    ensures
        r == has_child(rust_items_view(&db.items), parent@),
{
    let ghost items = rust_items_view(&db.items);
    let mut i: usize = 0;
    while i < db.items.len()
        invariant
            items == rust_items_view(&db.items),
            i <= db.items@.len(),
            forall|k: int|
                0 <= k < i ==> !is_child_path(item_path_spec(#[trigger] items[k]), parent@),
        decreases db.items@.len() - i,
    {
        if path_is_child(db.items[i].path(), parent) {
            proof {
                assert(is_child_path(item_path_spec(items[i as int]), parent@));
            }
            return true;
        }
        i = i + 1;
    }
    false
}

/// A renderable item: a kind the engine implements, whose paths can be named
/// and whose functions have renderable signatures.
pub open spec fn rust_item_wf(k: RustItemKindV) -> bool {
    match k {
        RustItemKindV::Module(m) => m.path.len() > 0,
        RustItemKindV::Struct(s) => s.path.len() > 0 && (s.kind matches
        RustStructKindV::WrapperType { kind } ==> kind == RustWrapperTypeKind::EnumWrapper),
        RustItemKindV::EnumValue(v) => v.path.len() >= 2,
        RustItemKindV::TraitImpl(t) => forall|i: int|
            0 <= i < t.functions.len() ==> function_wf(#[trigger] t.functions[i])
                && t.functions[i].arguments.len() < 1000000,
        RustItemKindV::Function(f) => function_wf(f) && f.arguments.len() < 1000000,
    }
}

/// A renderable item tree: every item is renderable.
pub open spec fn rust_db_wf(db: RustDatabaseV) -> bool {
    forall|i: int| 0 <= i < db.items.len() ==> rust_item_wf(#[trigger] db.items[i])
}

/// The failure report for one item the engine could not render.
pub open spec fn failure_of(k: RustItemKindV, e: GenError) -> SynthesisFailureV {
    SynthesisFailureV { item: full_name_spec(item_path_spec(k), None), error: e }
}

/// The boundary-safe parameter list of a trampoline: one argument per slot,
/// each of its boundary type.
pub open spec fn slot_callback_args_spec(ts: Seq<CompleteTypeV>, current: Seq<char>) -> Seq<
    Seq<char>,
> {
    Seq::new(
        ts.len(),
        |i: int| "arg"@ + dec_of(i) + ": "@ + type_code_spec(ts[i].rust_ffi_type, current),
    )
}

/// The marshalled expressions a trampoline hands to the registered callback,
/// one per argument, each converted out of its boundary type.
pub open spec fn slot_func_args_from(ts: Seq<CompleteTypeV>, i: int, current: Seq<char>) -> Result<
    Seq<Seq<char>>,
    GenError,
>
    decreases ts.len() - i,
{
    if i < 0 || i >= ts.len() {
        Ok(Seq::empty())
    } else {
        match convert_from_ffi_spec(ts[i], "arg"@ + dec_of(i), false, false, current) {
            Err(e) => Err(e),
            Ok(t) => match slot_func_args_from(ts, i + 1, current) {
                Err(e) => Err(e),
                Ok(rest) => Ok(seq![t] + rest),
            },
        }
    }
}

/// The trampoline type for one callback: a struct holding the registered
/// callback, and a boundary-safe entry point that marshals each argument and
/// forwards to it.
pub open spec fn slot_wrapper_code_spec(s: RustStructV, w: QtSlotWrapperV, current: Seq<char>) -> Result<
    Seq<char>,
    GenError,
> {
    let vis = if s.is_public {
        "pub "@
    } else {
        ""@
    };
    match slot_func_args_from(w.arguments, 0, current) {
        Err(e) => Err(e),
        Ok(fargs) => Ok(
            "// native arguments: ("@ + join_seqs(w.cpp_arguments, ", "@) + ")\n"@ + vis
                + "struct "@ + s.path.last() + " {\n  callback: "@ + full_name_spec(
                w.callback_path,
                Some(current),
            ) + ",\n}\n\n"@ + "impl "@ + full_name_spec(s.path, Some(current)) + " {\n"@
                + "  extern \"C\" fn trampoline(data: *mut ::std::os::raw::c_void, "@ + join_seqs(
                slot_callback_args_spec(w.arguments, current),
                ", "@,
            ) + ") {\n"@
                + "    let wrapper = unsafe { (data as *mut "@ + full_name_spec(
                s.path,
                Some(current),
            ) + ").as_mut() }.expect(\"null wrapper pointer\");\n"@
                + "    (wrapper.callback)("@ + join_seqs(fargs, ", "@) + ");\n  }\n}\n\n"@,
        ),
    }
}

} // verus!

verus! {

/// The rendered text and failure reports of the items standing directly under
/// `parent`, walked from position `i` on; a failed item contributes a report
/// instead of text, and generation goes on with the remaining items.
pub open spec fn items_children_code(
    items: Seq<RustItemKindV>,
    i: int,
    parent: Seq<Seq<char>>,
    current: Seq<char>,
    fuel: nat,
) -> (Seq<char>, Seq<SynthesisFailureV>)
    decreases fuel, 2int, items.len() - i,
{
    if i < 0 || i >= items.len() {
        (Seq::empty(), Seq::empty())
    } else {
        let rest = items_children_code(items, i + 1, parent, current, fuel);
        if is_child_path(item_path_spec(items[i]), parent) {
            match item_code_spec(items[i], items, current, fuel) {
                Ok(p) => (p.0 + rest.0, p.1 + rest.1),
                Err(e) => (rest.0, seq![failure_of(items[i], e)] + rest.1),
            }
        } else {
            rest
        }
    }
}

/// The rendered text and nested failure reports of one item.
pub open spec fn item_code_spec(
    k: RustItemKindV,
    items: Seq<RustItemKindV>,
    current: Seq<char>,
    fuel: nat,
) -> Result<(Seq<char>, Seq<SynthesisFailureV>), GenError>
    decreases fuel, 1int, 0int,
{
    match k {
        RustItemKindV::Module(m) => Ok(module_code_spec(m, items, current, fuel)),
        RustItemKindV::Struct(s) => struct_code_spec(s, items, current, fuel),
        RustItemKindV::EnumValue(v) => Ok(
            (enum_value_code_spec(v, current), Seq::<SynthesisFailureV>::empty()),
        ),
        RustItemKindV::TraitImpl(t) => match trait_impl_code_spec(t, current) {
            Err(e) => Err(e),
            Ok(txt) => Ok((txt, Seq::<SynthesisFailureV>::empty())),
        },
        RustItemKindV::Function(f) => match function_code_spec(f, current) {
            Err(e) => Err(e),
            Ok(txt) => Ok((txt, Seq::<SynthesisFailureV>::empty())),
        },
    }
}

/// The rendered text of one module: its documentation, its header, and its
/// children between the braces.
pub open spec fn module_code_spec(
    m: RustModuleV,
    items: Seq<RustItemKindV>,
    current: Seq<char>,
    fuel: nat,
) -> (Seq<char>, Seq<SynthesisFailureV>)
    decreases fuel, 0int, 0int,
{
    let ch = if fuel == 0 {
        (Seq::<char>::empty(), Seq::<SynthesisFailureV>::empty())
    } else {
        items_children_code(items, 0, m.path, current, (fuel - 1) as nat)
    };
    (
        format_doc_spec(m.doc, false) + "\n"@ + "pub mod "@ + m.path.last() + " {\n"@ + ch.0
            + "}\n"@,
        ch.1,
    )
}

/// The rendered text of one struct: its documentation, then an enum wrapper
/// newtype, a callback trampoline, or an opaque handle struct, and an impl
/// block holding its children if it has any.
pub open spec fn struct_code_spec(
    s: RustStructV,
    items: Seq<RustItemKindV>,
    current: Seq<char>,
    fuel: nat,
) -> Result<(Seq<char>, Seq<SynthesisFailureV>), GenError>
    decreases fuel, 0int, 0int,
{
    let doc = format_doc_spec(s.doc, false) + "\n"@;
    let vis = if s.is_public {
        "pub "@
    } else {
        ""@
    };
    let body = match s.kind {
        RustStructKindV::WrapperType { .. } => Ok(
            doc + "#[derive(Debug, Clone, Copy, PartialEq, Eq)]\n"@ + vis + "struct "@
                + s.path.last() + "(::std::os::raw::c_int);\n"@ + "\n"@,
        ),
        RustStructKindV::QtSlotWrapper(w) => match slot_wrapper_code_spec(s, w, current) {
            Err(e) => Err(e),
            Ok(t) => Ok(doc + t),
        },
        RustStructKindV::FfiClassType => Ok(
            doc + vis + "struct "@ + s.path.last() + " { _unused: u8, }\n"@,
        ),
        RustStructKindV::SizedType => Err(GenError::SizedStructNotGenerated),
    };
    match body {
        Err(e) => Err(e),
        Ok(b) => {
            if has_child(items, s.path) {
                let ch = if fuel == 0 {
                    (Seq::<char>::empty(), Seq::<SynthesisFailureV>::empty())
                } else {
                    items_children_code(items, 0, s.path, current, (fuel - 1) as nat)
                };
                Ok((b + "impl "@ + s.path.last() + " {\n"@ + ch.0 + "}\n"@ + "\n"@, ch.1))
            } else {
                Ok((b, Seq::<SynthesisFailureV>::empty()))
            }
        },
    }
}

} // verus!

verus! {

impl Generator {
    /// Walks the items standing directly under `parent` and emits each one;
    /// an item the engine cannot render is reported and skipped, and the
    /// remaining items are still generated.
    #[verifier::rlimit(100)]
    pub fn generate_children(&self, db: &RustDatabase, parent: &RustPath, fuel: u64) -> (r: (
        String,
        Vec<SynthesisFailure>,
    ))
        requires
            rust_db_wf(db@),
        ensures
            ({
                let s = items_children_code(
                    rust_items_view(&db.items),
                    0,
                    parent@,
                    self.crate_name@,
                    fuel as nat,
                );
                r.0@ == s.0 && failures_view(&r.1) == s.1
            }),
        decreases fuel, 2int,
    {
        let ghost items = rust_items_view(&db.items);
        let ghost c = self.crate_name@;
        let mut text = String::new();
        let mut fails: Vec<SynthesisFailure> = Vec::new();
        let mut i: usize = 0;
        proof {
            assert(failures_view(&fails) =~= Seq::<SynthesisFailureV>::empty());
        }
        while i < db.items.len()
            invariant
                rust_db_wf(db@),
                items == rust_items_view(&db.items),
                c == self.crate_name@,
                i <= db.items@.len(),
                ({
                    let total = items_children_code(items, 0, parent@, c, fuel as nat);
                    let rem = items_children_code(items, i as int, parent@, c, fuel as nat);
                    total.0 == text@ + rem.0 && total.1 == failures_view(&fails) + rem.1
                }),
            decreases db.items@.len() - i,
        {
            let ghost acc_t = text@;
            let ghost acc_f = failures_view(&fails);
            let ghost rem1 = items_children_code(items, i + 1 as int, parent@, c, fuel as nat);
            proof {
                assert(items[i as int] == db.items@[i as int]@);
                assert(db@.items[i as int] == items[i as int]);
                assert(rust_item_wf(db@.items[i as int]));
            }
            if path_is_child(db.items[i].path(), parent) {
                match self.generate_item(&db.items[i], db, fuel) {
                    Ok(p) => {
                        let (t, mut f) = p;
                        text.append(t.as_str());
                        let ghost f_v = failures_view(&f);
                        fails.append(&mut f);
                        proof {
                            assert(failures_view(&fails) =~= acc_f + f_v);
                            assert((acc_t + t@) + rem1.0 =~= acc_t + (t@ + rem1.0));
                            assert((acc_f + f_v) + rem1.1 =~= acc_f + (f_v + rem1.1));
                        }
                    },
                    Err(e) => {
                        let failure = SynthesisFailure {
                            item: db.items[i].path().full_name(None),
                            error: e,
                        };
                        proof {
                            assert(failure@ == failure_of(items[i as int], e));
                        }
                        fails.push(failure);
                        proof {
                            assert(failures_view(&fails) =~= acc_f + seq![
                                failure_of(items[i as int], e),
                            ]);
                            assert((acc_f + seq![failure_of(items[i as int], e)]) + rem1.1 =~= acc_f
                                + (seq![failure_of(items[i as int], e)] + rem1.1));
                        }
                    },
                }
            }
            i = i + 1;
        }
        proof {
            let rem_end = items_children_code(items, db.items@.len() as int, parent@, c, fuel as nat);
            assert(rem_end.0 =~= Seq::<char>::empty());
            assert(rem_end.1 =~= Seq::<SynthesisFailureV>::empty());
            assert(text@ + rem_end.0 =~= text@);
            assert(failures_view(&fails) + rem_end.1 =~= failures_view(&fails));
        }
        (text, fails)
    }

    /// Emits one item of the tree, whatever its kind.
    pub fn generate_item(&self, item: &RustDatabaseItem, db: &RustDatabase, fuel: u64) -> (r:
        Result<(String, Vec<SynthesisFailure>), GenError>)
        requires
            rust_item_wf(item@),
            rust_db_wf(db@),
        ensures
            ({
                let s = item_code_spec(item@, rust_items_view(&db.items), self.crate_name@, fuel as nat);
                match r {
                    Ok(p) => s matches Ok(sp) && sp.0 == p.0@ && sp.1 == failures_view(&p.1),
                    Err(e) => s == Err::<(Seq<char>, Seq<SynthesisFailureV>), GenError>(e),
                }
            }),
        decreases fuel, 1int,
    {
        match &item.kind {
            RustItemKind::Module(m) => Ok(self.generate_module(m, db, fuel)),
            RustItemKind::Struct(s) => self.generate_struct(s, db, fuel),
            RustItemKind::EnumValue(v) => {
                let t = self.generate_enum_value(v);
                let fails: Vec<SynthesisFailure> = Vec::new();
                proof {
                    assert(failures_view(&fails) =~= Seq::<SynthesisFailureV>::empty());
                }
                Ok((t, fails))
            },
            RustItemKind::TraitImpl(t) => {
                match self.generate_trait_impl(t) {
                    Ok(txt) => {
                        let fails: Vec<SynthesisFailure> = Vec::new();
                        proof {
                            assert(failures_view(&fails) =~= Seq::<SynthesisFailureV>::empty());
                        }
                        Ok((txt, fails))
                    },
                    Err(e) => Err(e),
                }
            },
            RustItemKind::Function(f) => {
                match self.generate_rust_final_function(f) {
                    Ok(txt) => {
                        let fails: Vec<SynthesisFailure> = Vec::new();
                        proof {
                            assert(failures_view(&fails) =~= Seq::<SynthesisFailureV>::empty());
                        }
                        Ok((txt, fails))
                    },
                    Err(e) => Err(e),
                }
            },
        }
    }

    /// Emits one module: its documentation, its header, and all its children.
    pub fn generate_module(&self, module: &RustModule, db: &RustDatabase, fuel: u64) -> (r: (
        String,
        Vec<SynthesisFailure>,
    ))
        requires
            module@.path.len() > 0,
            rust_db_wf(db@),
        ensures
            ({
                let s = module_code_spec(
                    module@,
                    rust_items_view(&db.items),
                    self.crate_name@,
                    fuel as nat,
                );
                r.0@ == s.0 && failures_view(&r.1) == s.1
            }),
        decreases fuel, 0int,
    {
        let (ch_text, ch_fails): (String, Vec<SynthesisFailure>) = if fuel == 0 {
            let empty_fails: Vec<SynthesisFailure> = Vec::new();
            proof {
                assert(failures_view(&empty_fails) =~= Seq::<SynthesisFailureV>::empty());
            }
            (String::new(), empty_fails)
        } else {
            self.generate_children(db, &module.path, fuel - 1)
        };
        let mut out = format_doc(module.doc.as_str());
        out.append("\n");
        out.append("pub mod ");
        let name = module.path.last();
        out.append(name.as_str());
        out.append(" {\n");
        out.append(ch_text.as_str());
        out.append("}\n");
        proof {
            assert(out@ =~= module_code_spec(
                module@,
                rust_items_view(&db.items),
                self.crate_name@,
                fuel as nat,
            ).0);
        }
        (out, ch_fails)
    }

    /// Emits one struct: an enum wrapper newtype with derived equality, a
    /// callback trampoline, or an opaque handle struct whose layout is not
    /// reproduced; then an impl block holding its children, if it has any.
    pub fn generate_struct(&self, rust_struct: &RustStruct, db: &RustDatabase, fuel: u64) -> (r:
        Result<(String, Vec<SynthesisFailure>), GenError>)
        requires
            rust_struct@.path.len() > 0,
            rust_struct@.kind matches RustStructKindV::WrapperType { kind } ==> kind
                == RustWrapperTypeKind::EnumWrapper,
            rust_db_wf(db@),
        ensures
            ({
                let s = struct_code_spec(
                    rust_struct@,
                    rust_items_view(&db.items),
                    self.crate_name@,
                    fuel as nat,
                );
                match r {
                    Ok(p) => s matches Ok(sp) && sp.0 == p.0@ && sp.1 == failures_view(&p.1),
                    Err(e) => s == Err::<(Seq<char>, Seq<SynthesisFailureV>), GenError>(e),
                }
            }),
        decreases fuel, 0int,
    {
        proof {
            reveal_strlit("");
        }
        let mut body = format_doc(rust_struct.doc.as_str());
        body.append("\n");
        match &rust_struct.kind {
            RustStructKind::WrapperType { .. } => {
                body.append("#[derive(Debug, Clone, Copy, PartialEq, Eq)]\n");
                if rust_struct.is_public {
                    body.append("pub ");
                } else {
                    body.append("");
                }
                body.append("struct ");
                let name = rust_struct.path.last();
                body.append(name.as_str());
                body.append("(::std::os::raw::c_int);\n");
                body.append("\n");
            },
            RustStructKind::QtSlotWrapper(w) => {
                match self.slot_wrapper_code(rust_struct, w) {
                    Ok(t) => body.append(t.as_str()),
                    Err(e) => {
                        return Err(e);
                    },
                }
            },
            RustStructKind::FfiClassType => {
                if rust_struct.is_public {
                    body.append("pub ");
                } else {
                    body.append("");
                }
                body.append("struct ");
                let name = rust_struct.path.last();
                body.append(name.as_str());
                body.append(" { _unused: u8, }\n");
            },
            RustStructKind::SizedType => {
                return Err(GenError::SizedStructNotGenerated);
            },
        }
        if db_has_children(db, &rust_struct.path) {
            let (ch_text, ch_fails): (String, Vec<SynthesisFailure>) = if fuel == 0 {
                let empty_fails: Vec<SynthesisFailure> = Vec::new();
                proof {
                    assert(failures_view(&empty_fails) =~= Seq::<SynthesisFailureV>::empty());
                }
                (String::new(), empty_fails)
            } else {
                self.generate_children(db, &rust_struct.path, fuel - 1)
            };
            body.append("impl ");
            let name = rust_struct.path.last();
            body.append(name.as_str());
            body.append(" {\n");
            body.append(ch_text.as_str());
            body.append("}\n");
            body.append("\n");
            proof {
                assert(struct_code_spec(
                    rust_struct@,
                    rust_items_view(&db.items),
                    self.crate_name@,
                    fuel as nat,
                ) is Ok);
                assert(body@ =~= struct_code_spec(
                    rust_struct@,
                    rust_items_view(&db.items),
                    self.crate_name@,
                    fuel as nat,
                ).unwrap().0);
            }
            Ok((body, ch_fails))
        } else {
            let empty_fails: Vec<SynthesisFailure> = Vec::new();
            proof {
                assert(failures_view(&empty_fails) =~= Seq::<SynthesisFailureV>::empty());
                assert(struct_code_spec(
                    rust_struct@,
                    rust_items_view(&db.items),
                    self.crate_name@,
                    fuel as nat,
                ) is Ok);
                assert(body@ =~= struct_code_spec(
                    rust_struct@,
                    rust_items_view(&db.items),
                    self.crate_name@,
                    fuel as nat,
                ).unwrap().0);
            }
            Ok((body, empty_fails))
        }
    }

    /// Emits the trampoline type for one callback.
    fn slot_wrapper_code(&self, rust_struct: &RustStruct, w: &QtSlotWrapper) -> (r: Result<
        String,
        GenError,
    >)
        requires
            rust_struct@.path.len() > 0,
        ensures
            ({
                let s = slot_wrapper_code_spec(rust_struct@, w@, self.crate_name@);
                match r {
                    Ok(code) => s == Ok::<Seq<char>, GenError>(code@),
                    Err(e) => s == Err::<Seq<char>, GenError>(e),
                }
            }),
    {
        let ghost ts = complete_types_view(&w.arguments);
        let ghost c = self.crate_name@;
        let mut fargs: Vec<String> = Vec::new();
        let mut i: usize = 0;
        while i < w.arguments.len()
            invariant
                i <= w.arguments@.len(),
                ts == complete_types_view(&w.arguments),
                c == self.crate_name@,
                ({
                    let total = slot_func_args_from(ts, 0, c);
                    match slot_func_args_from(ts, i as int, c) {
                        Err(e) => total == Err::<Seq<Seq<char>>, GenError>(e),
                        Ok(rest) => total == Ok::<Seq<Seq<char>>, GenError>(
                            fargs.deep_view() + rest,
                        ),
                    }
                }),
            decreases w.arguments@.len() - i,
        {
            proof {
                assert(ts[i as int] == w.arguments@[i as int]@);
            }
            let mut name = String::from_str("arg");
            let digits = u64_to_dec_string(i as u64);
            name.append(digits.as_str());
            let ghost acc0 = fargs.deep_view();
            let converted = match self.convert_type_from_ffi(&w.arguments[i], name, false, false) {
                Ok(t) => t,
                Err(e) => {
                    return Err(e);
                },
            };
            let ghost t_v = converted@;
            fargs.push(converted);
            proof {
                assert(fargs.deep_view() =~= acc0.push(t_v));
                if slot_func_args_from(ts, i + 1 as int, c) is Ok {
                    let rest2 = slot_func_args_from(ts, i + 1 as int, c)->Ok_0;
                    assert(acc0 + (seq![t_v] + rest2) =~= acc0.push(t_v) + rest2);
                }
            }
            i = i + 1;
        }
        proof {
            assert(slot_func_args_from(ts, w.arguments@.len() as int, c) == Ok::<
                Seq<Seq<char>>,
                GenError,
            >(Seq::<Seq<char>>::empty()));
            assert(fargs.deep_view() + Seq::<Seq<char>>::empty() =~= fargs.deep_view());
        }
        let mut cargs: Vec<String> = Vec::new();
        let mut k: usize = 0;
        while k < w.arguments.len()
            invariant
                k <= w.arguments@.len(),
                ts == complete_types_view(&w.arguments),
                c == self.crate_name@,
                cargs@.len() == k,
                forall|m: int| 0 <= m < k ==> cargs@[m]@ == slot_callback_args_spec(ts, c)[m],
            decreases w.arguments@.len() - k,
        {
            proof {
                assert(ts[k as int] == w.arguments@[k as int]@);
            }
            let mut a = String::from_str("arg");
            let digits = u64_to_dec_string(k as u64);
            a.append(digits.as_str());
            a.append(": ");
            let tc = rust_type_to_code(&w.arguments[k].rust_ffi_type, self.crate_name.as_str());
            a.append(tc.as_str());
            proof {
                assert(a@ == slot_callback_args_spec(ts, c)[k as int]);
            }
            cargs.push(a);
            k = k + 1;
        }
        proof {
            assert(cargs.deep_view() =~= slot_callback_args_spec(ts, c));
            assert(w.cpp_arguments.deep_view() =~= w@.cpp_arguments);
        }
        let mut out = String::from_str("// native arguments: (");
        let cpp_joined = join_strings(&w.cpp_arguments, ", ");
        out.append(cpp_joined.as_str());
        out.append(")\n");
        if rust_struct.is_public {
            out.append("pub ");
        } else {
            out.append("");
        }
        out.append("struct ");
        let name = rust_struct.path.last();
        out.append(name.as_str());
        out.append(" {\n  callback: ");
        let cb = w.callback_path.full_name(Some(self.crate_name.as_str()));
        out.append(cb.as_str());
        out.append(",\n}\n\n");
        out.append("impl ");
        let full = rust_struct.path.full_name(Some(self.crate_name.as_str()));
        out.append(full.as_str());
        out.append(" {\n");
        out.append("  extern \"C\" fn trampoline(data: *mut ::std::os::raw::c_void, ");
        let cargs_joined = join_strings(&cargs, ", ");
        out.append(cargs_joined.as_str());
        out.append(") {\n");
        out.append("    let wrapper = unsafe { (data as *mut ");
        out.append(full.as_str());
        out.append(").as_mut() }.expect(\"null wrapper pointer\");\n");
        out.append("    (wrapper.callback)(");
        let fargs_joined = join_strings(&fargs, ", ");
        out.append(fargs_joined.as_str());
        out.append(");\n  }\n}\n\n");
        proof {
            assert(slot_wrapper_code_spec(rust_struct@, w@, c) is Ok);
            assert(out@ =~= slot_wrapper_code_spec(rust_struct@, w@, c).unwrap());
        }
        Ok(out)
    }
}

} // verus!

verus! {

/// The longest path length among the items from position `i` on.
pub open spec fn max_path_len_from(items: Seq<RustItemKindV>, i: int) -> int
    decreases items.len() - i,
{
    if i < 0 || i >= items.len() {
        0
    } else {
        let rest = max_path_len_from(items, i + 1);
        let here = item_path_spec(items[i]).len() as int;
        if here >= rest {
            here
        } else {
            rest
        }
    }
}

/// The longest item path length of the tree; the module walk needs no more
/// depth than this.
pub fn max_path_len(db: &RustDatabase) -> (r: usize)
    requires
        forall|i: int| 0 <= i < rust_items_view(&db.items).len() ==> item_path_spec(
            #[trigger] rust_items_view(&db.items)[i],
        ).len() < 1000000,
    ensures
        r as int == max_path_len_from(rust_items_view(&db.items), 0),
        r < 1000000,
{
    let ghost items = rust_items_view(&db.items);
    let mut acc: usize = 0;
    let mut i: usize = db.items.len();
    while i > 0
        invariant
            items == rust_items_view(&db.items),
            i <= db.items@.len(),
            acc < 1000000,
            acc as int == max_path_len_from(items, i as int),
            forall|k: int| 0 <= k < items.len() ==> item_path_spec(#[trigger] items[k]).len()
                < 1000000,
        decreases i,
    {
        i = i - 1;
        proof {
            assert(items[i as int] == db.items@[i as int]@);
        }
        let here = db.items[i].path().parts.len();
        if here > acc {
            acc = here;
        }
    }
    acc
}

/// The complete produced crate root: the crate documentation, the fixed
/// preamble binding the boundary and layout files produced alongside, and the
/// items standing directly under the crate root, with the failure reports of
/// everything that could not be rendered.
pub open spec fn lib_file_spec(db: RustDatabaseV, current: Seq<char>) -> (
    Seq<char>,
    Seq<SynthesisFailureV>,
) {
    let doc = match db.lib_extra_doc {
        Some(d) => format_doc_spec(d, true) + "\n"@,
        None => Seq::<char>::empty(),
    };
    let pre = "#[allow(dead_code)]\nmod ffi { \ninclude!(concat!(env!(\"OUT_DIR\"), \"/ffi.rs\")); \n}\n"@
        + "\n"@ + "mod _types { \ninclude!(concat!(env!(\"OUT_DIR\"), \"/_types.rs\")); \n}\n"@
        + "\n"@;
    let ch = items_children_code(
        db.items,
        0,
        seq![current],
        current,
        (max_path_len_from(db.items, 0) + 1) as nat,
    );
    (doc + pre + ch.0, ch.1)
}

/// Emits the produced crate's root file for `database`, walking the whole item
/// tree; the text comes with one failure report per item that could not be
/// rendered, and those items alone are missing from the text.
pub fn generate_lib_file(crate_name: &str, database: &RustDatabase) -> (r: (
    String,
    Vec<SynthesisFailure>,
))
    requires
        rust_db_wf(database@),
        forall|i: int| 0 <= i < rust_items_view(&database.items).len() ==> item_path_spec(
            #[trigger] rust_items_view(&database.items)[i],
        ).len() < 1000000,
    ensures
        ({
            let s = lib_file_spec(database@, crate_name@);
            r.0@ == s.0 && failures_view(&r.1) == s.1
        }),
{
    proof {
        reveal_strlit("");
    }
    let generator = Generator::new(crate_name);
    let mut out = String::new();
    match &database.lib_extra_doc {
        Some(d) => {
            let doc = format_doc_extended(d.as_str(), true);
            out.append(doc.as_str());
            out.append("\n");
        },
        None => out.append(""),
    }
    out.append(
        "#[allow(dead_code)]\nmod ffi { \ninclude!(concat!(env!(\"OUT_DIR\"), \"/ffi.rs\")); \n}\n",
    );
    out.append("\n");
    out.append("mod _types { \ninclude!(concat!(env!(\"OUT_DIR\"), \"/_types.rs\")); \n}\n");
    out.append("\n");
    let depth = max_path_len(database);
    let mut root_parts: Vec<String> = Vec::new();
    root_parts.push(String::from_str(crate_name));
    let root = RustPath { parts: root_parts };
    proof {
        assert(root@ =~= seq![crate_name@]);
    }
    let (ch_text, ch_fails) = generator.generate_children(database, &root, (depth as u64) + 1);
    out.append(ch_text.as_str());
    proof {
        assert(out@ =~= lib_file_spec(database@, crate_name@).0);
    }
    (out, ch_fails)
}

/// Emits the boundary declaration file; the engine currently tracks no
/// separate storage of flattened declarations, so the block is empty.
pub fn generate_ffi_file(crate_name: &str, _database: &RustDatabase) -> (r: String)
    ensures
        r@ == ffi_code_spec(Seq::<FfiFunctionGroupV>::empty(), crate_name@),
{
    let generator = Generator::new(crate_name);
    let groups: Vec<FfiFunctionGroup> = Vec::new();
    let code = generator.generate_ffi_code(&groups);
    proof {
        assert(groups_view(&groups) =~= Seq::<FfiFunctionGroupV>::empty());
    }
    code
}

} // verus!
