//! The dual type model of the boundary: the type of a value as the idiomatic
//! wrapper sees it, the flat type that crosses the boundary, and the
//! enumerated conversion joining the two.
use vstd::prelude::*;
use crate::data::strs_view;
use crate::data::clone_strings;
use crate::text::join_seqs;
use crate::text::join_strings;

verus! {

broadcast use vstd::std_specs::vec::group_vec_axioms, vstd::seq::group_seq_axioms;

/// How a pointer-like type points: a raw pointer, or a reference with an
/// optional lifetime.
#[derive(Debug, PartialEq, Eq)]
pub enum RustPointerLikeTypeKind {
    Pointer,
    Reference { lifetime: Option<String> },
}

/// Mathematical model of a [`RustPointerLikeTypeKind`].
#[verifier::ext_equal]
pub ghost enum RustPointerLikeTypeKindV {
    Pointer,
    Reference { lifetime: Option<Seq<char>> },
}

impl View for RustPointerLikeTypeKind {
    type V = RustPointerLikeTypeKindV;

    open spec fn view(&self) -> RustPointerLikeTypeKindV {
        match self {
            RustPointerLikeTypeKind::Pointer => RustPointerLikeTypeKindV::Pointer,
            RustPointerLikeTypeKind::Reference { lifetime } => (RustPointerLikeTypeKindV::Reference {
                lifetime: crate::data::opt_str_view(lifetime),
            }),
        }
    }
}

/// A path to an item of the produced crate or of one of its dependencies.
#[derive(Debug, PartialEq, Eq)]
pub struct RustPath {
    pub parts: Vec<String>,
}

impl View for RustPath {
    type V = Seq<Seq<char>>;

    open spec fn view(&self) -> Seq<Seq<char>> {
        strs_view(&self.parts)
    }
}

impl Clone for RustPath {
    fn clone(&self) -> (r: Self)
        ensures
            r@ == self@,
    {
        RustPath { parts: clone_strings(&self.parts) }
    }
}

/// A type as it appears in produced code.
#[derive(Debug, PartialEq, Eq)]
pub enum RustType {
    EmptyTuple,
    PointerLike { kind: RustPointerLikeTypeKind, target: Box<RustType>, is_const: bool },
    Common { path: RustPath, generic_arguments: Option<Vec<RustType>> },
    FunctionPointer { return_type: Box<RustType>, arguments: Vec<RustType> },
}

/// Mathematical model of a [`RustType`].
#[verifier::ext_equal]
pub ghost enum RustTypeV {
    EmptyTuple,
    PointerLike { kind: RustPointerLikeTypeKindV, target: Box<RustTypeV>, is_const: bool },
    Common { path: Seq<Seq<char>>, generic_arguments: Option<Seq<RustTypeV>> },
    FunctionPointer { return_type: Box<RustTypeV>, arguments: Seq<RustTypeV> },
}

/// The model of a type, defined by structural recursion.
pub open spec fn rust_type_view(t: RustType) -> RustTypeV
    decreases t, 1int,
{
    match t {
        RustType::EmptyTuple => RustTypeV::EmptyTuple,
        RustType::PointerLike { kind, target, is_const } => (RustTypeV::PointerLike {
            kind: kind@,
            target: Box::new(rust_type_view(*target)),
            is_const: is_const,
        }),
        RustType::Common { path, generic_arguments } => (RustTypeV::Common {
            path: path@,
            generic_arguments: match generic_arguments {
                Some(args) => Some(types_seq_view(args@)),
                None => None,
            },
        }),
        RustType::FunctionPointer { return_type, arguments } => (RustTypeV::FunctionPointer {
            return_type: Box::new(rust_type_view(*return_type)),
            arguments: types_seq_view(arguments@),
        }),
    }
}

/// The models of a sequence of types, in order.
pub open spec fn types_seq_view(s: Seq<RustType>) -> Seq<RustTypeV>
    decreases s, 0int,
{
    if s.len() == 0 {
        Seq::empty()
    } else {
        seq![rust_type_view(s[0])] + types_seq_view(s.drop_first())
    }
}

/// `types_seq_view` maps each element to its model.
pub proof fn lemma_types_seq_view(s: Seq<RustType>)
    ensures
        types_seq_view(s).len() == s.len(),
        forall|i: int| 0 <= i < s.len() ==> types_seq_view(s)[i] == rust_type_view(s[i]),
    decreases s.len(),
{
    if s.len() > 0 {
        lemma_types_seq_view(s.drop_first());
        assert forall|i: int| 0 <= i < s.len() implies types_seq_view(s)[i] == rust_type_view(
            s[i],
        ) by {
            if i > 0 {
                assert(s.drop_first()[i - 1] == s[i]);
                assert(types_seq_view(s)[i] == types_seq_view(s.drop_first())[i - 1]);
            }
        }
    }
}

impl View for RustType {
    type V = RustTypeV;

    open spec fn view(&self) -> RustTypeV {
        rust_type_view(*self)
    }
}

/// The model of a vector of types.
pub open spec fn types_view(v: &Vec<RustType>) -> Seq<RustTypeV> {
    types_seq_view(v@)
}

impl RustType {
    /// Structural copy of this type.
    pub fn duplicate(&self) -> (r: Self)
        ensures
            r@ == self@,
        decreases self,
    {
        match self {
            RustType::EmptyTuple => RustType::EmptyTuple,
            RustType::PointerLike { kind, target, is_const } => {
                let kind2 = match kind {
                    RustPointerLikeTypeKind::Pointer => RustPointerLikeTypeKind::Pointer,
                    RustPointerLikeTypeKind::Reference { lifetime } => {
                        RustPointerLikeTypeKind::Reference {
                            lifetime: crate::data::clone_opt_string(lifetime),
                        }
                    },
                };
                let r = RustType::PointerLike {
                    kind: kind2,
                    target: Box::new(target.duplicate()),
                    is_const: *is_const,
                };
                proof {
                    assert(r@ =~~= self@);
                }
                r
            },
            RustType::Common { path, generic_arguments } => {
                match generic_arguments {
                    Some(args) => {
                        let list = Self::duplicate_list(args);
                        let r = RustType::Common {
                            path: path.clone(),
                            generic_arguments: Some(list),
                        };
                        proof {
                            lemma_types_seq_view(list@);
                            lemma_types_seq_view(args@);
                            assert(types_seq_view(list@) =~= types_seq_view(args@));
                            assert(r@ =~~= self@);
                        }
                        r
                    },
                    None => {
                        let r = RustType::Common { path: path.clone(), generic_arguments: None };
                        proof {
                            assert(r@ =~~= self@);
                        }
                        r
                    },
                }
            },
            RustType::FunctionPointer { return_type, arguments } => {
                let list = Self::duplicate_list(arguments);
                let ghost list0 = list@;
                let r = RustType::FunctionPointer {
                    return_type: Box::new(return_type.duplicate()),
                    arguments: list,
                };
                proof {
                    lemma_types_seq_view(list0);
                    lemma_types_seq_view(arguments@);
                    assert(types_seq_view(list0) =~= types_seq_view(arguments@));
                    assert(r@ =~~= self@);
                }
                r
            },
        }
    }

    /// Structural copy of a list of types.
    pub fn duplicate_list(v: &Vec<RustType>) -> (r: Vec<RustType>)
        ensures
            r@.len() == v@.len(),
            forall|k: int| 0 <= k < v@.len() ==> #[trigger] r@[k]@ == v@[k]@,
            types_view(&r) == types_view(v),
        decreases v,
    {
        let mut out: Vec<RustType> = Vec::new();
        let mut i: usize = 0;
        while i < v.len()
            invariant
                i <= v@.len(),
                out@.len() == i,
                forall|k: int| 0 <= k < i ==> out@[k]@ == v@[k]@,
            decreases v@.len() - i,
        {
            out.push(v[i].duplicate());
            i = i + 1;
        }
        proof {
            lemma_types_seq_view(out@);
            lemma_types_seq_view(v@);
            assert(types_view(&out) =~= types_view(v));
        }
        out
    }
}

} // verus!

verus! {

/// A synthesis configuration error: a conversion kind asserted against an
/// incompatible type shape, a missing generic argument, or an unusable
/// boundary slot. Fatal for the single item being generated.
#[derive(Debug, Clone, Copy, PartialEq, Eq, Structural)]
pub enum GenError {
    TypeNotPointerLike,
    OptionWithoutArguments,
    OptionArgsCountInvalid,
    OptionTypeExpected,
    OptionRefNotSupportedHere,
    BoxWithoutArguments,
    BoxEmptyArguments,
    BoxTypeExpected,
    QFlagsTypeExpected,
    VoidUnexpected,
    FfiArgumentMissing,
    SizedStructNotGenerated,
}

/// The report text of a synthesis error.
pub open spec fn gen_error_text(e: GenError) -> Seq<char> {
    match e {
        GenError::TypeNotPointerLike => "type is not pointer-like"@,
        GenError::OptionWithoutArguments => "Option with no generic_arguments"@,
        GenError::OptionArgsCountInvalid => "Option with invalid args count"@,
        GenError::OptionTypeExpected => "Option type expected"@,
        GenError::OptionRefNotSupportedHere => "OptionRefToPtr is not supported here yet"@,
        GenError::BoxWithoutArguments => "CppBox must have generic_arguments"@,
        GenError::BoxEmptyArguments => "CppBox must have non-empty generic_arguments"@,
        GenError::BoxTypeExpected => "CppBox type expected"@,
        GenError::QFlagsTypeExpected => "QFlags type expected"@,
        GenError::VoidUnexpected => "void is not expected here at all!"@,
        GenError::FfiArgumentMissing => "ffi argument is missing"@,
        GenError::SizedStructNotGenerated => (
        "sized struct can't be generated with rust code generator"@),
    }
}

impl GenError {
    /// Renders the report text of this error.
    pub fn message(&self) -> (r: String)
        ensures
            r@ == gen_error_text(*self),
    {
        match self {
            GenError::TypeNotPointerLike => String::from_str("type is not pointer-like"),
            GenError::OptionWithoutArguments => String::from_str("Option with no generic_arguments"),
            GenError::OptionArgsCountInvalid => String::from_str("Option with invalid args count"),
            GenError::OptionTypeExpected => String::from_str("Option type expected"),
            GenError::OptionRefNotSupportedHere => String::from_str(
                "OptionRefToPtr is not supported here yet",
            ),
            GenError::BoxWithoutArguments => String::from_str("CppBox must have generic_arguments"),
            GenError::BoxEmptyArguments => String::from_str(
                "CppBox must have non-empty generic_arguments",
            ),
            GenError::BoxTypeExpected => String::from_str("CppBox type expected"),
            GenError::QFlagsTypeExpected => String::from_str("QFlags type expected"),
            GenError::VoidUnexpected => String::from_str("void is not expected here at all!"),
            GenError::FfiArgumentMissing => String::from_str("ffi argument is missing"),
            GenError::SizedStructNotGenerated => String::from_str(
                "sized struct can't be generated with rust code generator",
            ),
        }
    }
}

/// The enumerated strategy translating one value between its wrapper type and
/// its boundary type.
#[derive(Debug, Clone, Copy, PartialEq, Eq, Structural)]
pub enum RustToFfiTypeConversion {
    NoConversion,
    RefToPtr,
    OptionRefToPtr,
    ValueToPtr,
    CppBoxToPtr,
    QFlagsToUInt,
}

/// The dual type of one slot: the type the wrapper shows, the flat type that
/// crosses the boundary, and the conversion joining them.
#[derive(Debug, PartialEq, Eq)]
pub struct CompleteType {
    pub rust_api_type: RustType,
    pub rust_ffi_type: RustType,
    pub rust_api_to_ffi_conversion: RustToFfiTypeConversion,
}

/// Mathematical model of a [`CompleteType`].
#[verifier::ext_equal]
pub ghost struct CompleteTypeV {
    pub rust_api_type: RustTypeV,
    pub rust_ffi_type: RustTypeV,
    pub rust_api_to_ffi_conversion: RustToFfiTypeConversion,
}

impl View for CompleteType {
    type V = CompleteTypeV;

    open spec fn view(&self) -> CompleteTypeV {
        CompleteTypeV {
            rust_api_type: self.rust_api_type@,
            rust_ffi_type: self.rust_ffi_type@,
            rust_api_to_ffi_conversion: self.rust_api_to_ffi_conversion,
        }
    }
}

impl CompleteType {
    /// Structural copy of this dual type.
    pub fn duplicate(&self) -> (r: Self)
        ensures
            r@ == self@,
    {
        CompleteType {
            rust_api_type: self.rust_api_type.duplicate(),
            rust_ffi_type: self.rust_ffi_type.duplicate(),
            rust_api_to_ffi_conversion: self.rust_api_to_ffi_conversion,
        }
    }
}

/// The rendered path: the parts joined by the separator, with a leading
/// separator when the path leaves the produced crate.
pub open spec fn full_name_spec(parts: Seq<Seq<char>>, current: Option<Seq<char>>) -> Seq<char> {
    match current {
        Some(c) => if parts.len() > 0 && parts[0] == c {
            join_seqs(parts, "::"@)
        } else {
            "::"@ + join_seqs(parts, "::"@)
        },
        None => join_seqs(parts, "::"@),
    }
}

impl RustPath {
    /// Renders the path, abbreviating nothing; paths outside `current_crate`
    /// are absolute.
    pub fn full_name(&self, current_crate: Option<&str>) -> (r: String)
        ensures
            r@ == full_name_spec(self@, match current_crate {
                Some(c) => Some(c@),
                None => None,
            }),
    {
        let joined = join_strings(&self.parts, "::");
        proof {
            assert(self.parts.deep_view() =~= self@);
        }
        match current_crate {
            Some(c) => {
                let is_local = self.parts.len() > 0 && self.parts[0] == String::from_str(c);
                if is_local {
                    joined
                } else {
                    let mut out = String::from_str("::");
                    out.append(joined.as_str());
                    out
                }
            },
            None => joined,
        }
    }

    /// The final part of the path.
    pub fn last(&self) -> (r: &String)
        requires
            self@.len() > 0,
        ensures
            r@ == self@.last(),
    {
        &self.parts[self.parts.len() - 1]
    }

    /// The path one level up, or nothing for a root path.
    pub fn parent(&self) -> (r: Option<RustPath>)
        ensures
            match r {
                Some(p) => self@.len() >= 2 && p@ == self@.drop_last(),
                None => self@.len() < 2,
            },
    {
        if self.parts.len() >= 2 {
            let mut parts: Vec<String> = Vec::new();
            let mut i: usize = 0;
            let end = self.parts.len() - 1;
            while i < end
                invariant
                    end == self.parts@.len() - 1,
                    i <= end,
                    parts@.len() == i,
                    forall|k: int| 0 <= k < i ==> parts@[k]@ == self.parts@[k]@,
                decreases end - i,
            {
                parts.push(self.parts[i].clone());
                i = i + 1;
            }
            let r = RustPath { parts };
            proof {
                assert(r@ =~= self@.drop_last());
            }
            Some(r)
        } else {
            None
        }
    }
}

/// Whether the outermost layer of a pointer-like type is const.
pub open spec fn is_const_spec(t: RustTypeV) -> Result<bool, GenError> {
    match t {
        RustTypeV::PointerLike { is_const, .. } => Ok(is_const),
        _ => Err(GenError::TypeNotPointerLike),
    }
}

/// The type with the constness of its outermost pointer-like layer replaced.
pub open spec fn set_const_spec(t: RustTypeV, value: bool) -> Result<RustTypeV, GenError> {
    match t {
        RustTypeV::PointerLike { kind, target, .. } => Ok(
            RustTypeV::PointerLike { kind, target, is_const: value },
        ),
        _ => Err(GenError::TypeNotPointerLike),
    }
}

/// The type with the given lifetime on its outermost reference layer; a type
/// with no such layer is unchanged.
pub open spec fn with_lifetime_spec(t: RustTypeV, lt: Seq<char>) -> RustTypeV {
    match t {
        RustTypeV::PointerLike { kind: RustPointerLikeTypeKindV::Reference { .. }, target, is_const } => (RustTypeV::PointerLike {
            kind: RustPointerLikeTypeKindV::Reference { lifetime: Some(lt) },
            target,
            is_const,
        }),
        _ => t,
    }
}

/// The lifetime on the outermost reference layer, if any.
pub open spec fn lifetime_spec(t: RustTypeV) -> Option<Seq<char>> {
    match t {
        RustTypeV::PointerLike {
            kind: RustPointerLikeTypeKindV::Reference { lifetime: Some(l) },
            ..
        } => Some(l),
        _ => None,
    }
}

impl RustType {
    /// Whether the outermost pointer-like layer is const; other shapes have no
    /// constness and are reported as errors.
    pub fn is_const(&self) -> (r: Result<bool, GenError>)
        ensures
            r == is_const_spec(self@),
    {
        match self {
            RustType::PointerLike { is_const, .. } => Ok(*is_const),
            _ => Err(GenError::TypeNotPointerLike),
        }
    }

    /// Whether the innermost indirection of the type is const; with one layer
    /// of indirection this is the constness of that layer.
    pub fn last_is_const(&self) -> (r: Result<bool, GenError>)
        ensures
            r == is_const_spec(self@),
    {
        match self {
            RustType::PointerLike { is_const, .. } => Ok(*is_const),
            _ => Err(GenError::TypeNotPointerLike),
        }
    }

    /// A copy of the type with its outermost constness replaced.
    pub fn set_const(&self, value: bool) -> (r: Result<RustType, GenError>)
        ensures
            match r {
                Ok(t) => set_const_spec(self@, value) == Ok::<RustTypeV, GenError>(t@),
                Err(e) => set_const_spec(self@, value) == Err::<RustTypeV, GenError>(e),
            },
    {
        match self {
            RustType::PointerLike { kind, target, .. } => {
                let kind2 = match kind {
                    RustPointerLikeTypeKind::Pointer => RustPointerLikeTypeKind::Pointer,
                    RustPointerLikeTypeKind::Reference { lifetime } => {
                        RustPointerLikeTypeKind::Reference {
                            lifetime: crate::data::clone_opt_string(lifetime),
                        }
                    },
                };
                let r = RustType::PointerLike {
                    kind: kind2,
                    target: Box::new(target.duplicate()),
                    is_const: value,
                };
                proof {
                    assert(r@ =~~= set_const_spec(self@, value).unwrap());
                }
                Ok(r)
            },
            _ => Err(GenError::TypeNotPointerLike),
        }
    }

    /// A copy of the type with the lifetime set on its outermost reference.
    pub fn with_lifetime(&self, lt: &str) -> (r: RustType)
        ensures
            r@ == with_lifetime_spec(self@, lt@),
    {
        match self {
            RustType::PointerLike {
                kind: RustPointerLikeTypeKind::Reference { .. },
                target,
                is_const,
            } => {
                let r = RustType::PointerLike {
                    kind: RustPointerLikeTypeKind::Reference {
                        lifetime: Some(String::from_str(lt)),
                    },
                    target: Box::new(target.duplicate()),
                    is_const: *is_const,
                };
                proof {
                    assert(r@ =~~= with_lifetime_spec(self@, lt@));
                }
                r
            },
            _ => self.duplicate(),
        }
    }

    /// The lifetime on the outermost reference, if any.
    pub fn lifetime(&self) -> (r: Option<&String>)
        ensures
            match r {
                Some(l) => lifetime_spec(self@) == Some(l@),
                None => lifetime_spec(self@) == None::<Seq<char>>,
            },
    {
        match self {
            RustType::PointerLike {
                kind: RustPointerLikeTypeKind::Reference { lifetime: Some(l) },
                ..
            } => Some(l),
            _ => None,
        }
    }
}

} // verus!

verus! {

/// The produced-code text of a type, rendered for `current` as the name of the
/// produced crate.
pub open spec fn type_code_spec(t: RustTypeV, current: Seq<char>) -> Seq<char>
    decreases t, 1int,
{
    match t {
        RustTypeV::EmptyTuple => "()"@,
        RustTypeV::PointerLike { kind, target, is_const } => {
            let tc = type_code_spec(*target, current);
            match kind {
                RustPointerLikeTypeKindV::Pointer => if is_const {
                    "*const "@ + tc
                } else {
                    "*mut "@ + tc
                },
                RustPointerLikeTypeKindV::Reference { lifetime } => {
                    let lt = match lifetime {
                        Some(l) => "'"@ + l + " "@,
                        None => ""@,
                    };
                    if is_const {
                        "&"@ + lt + tc
                    } else {
                        "&"@ + lt + "mut "@ + tc
                    }
                },
            }
        },
        RustTypeV::Common { path, generic_arguments } => {
            let base = full_name_spec(path, Some(current));
            match generic_arguments {
                Some(args) => base + "<"@ + join_seqs(type_codes_spec(args, current), ", "@)
                    + ">"@,
                None => base,
            }
        },
        RustTypeV::FunctionPointer { return_type, arguments } => {
            let ret = if (*return_type) is EmptyTuple {
                ""@
            } else {
                " -> "@ + type_code_spec(*return_type, current)
            };
            "extern \"C\" fn("@ + join_seqs(type_codes_spec(arguments, current), ", "@) + ")"@
                + ret
        },
    }
}

/// The produced-code texts of a sequence of types, in order.
pub open spec fn type_codes_spec(ts: Seq<RustTypeV>, current: Seq<char>) -> Seq<Seq<char>>
    decreases ts, 0int,
{
    if ts.len() == 0 {
        Seq::empty()
    } else {
        seq![type_code_spec(ts[0], current)] + type_codes_spec(ts.drop_first(), current)
    }
}

/// `type_codes_spec` maps each type to its code.
pub proof fn lemma_type_codes_spec(ts: Seq<RustTypeV>, current: Seq<char>)
    ensures
        type_codes_spec(ts, current).len() == ts.len(),
        forall|i: int| 0 <= i < ts.len() ==> type_codes_spec(ts, current)[i] == type_code_spec(
            ts[i],
            current,
        ),
    decreases ts.len(),
{
    if ts.len() > 0 {
        lemma_type_codes_spec(ts.drop_first(), current);
        assert forall|i: int| 0 <= i < ts.len() implies type_codes_spec(ts, current)[i]
            == type_code_spec(ts[i], current) by {
            if i > 0 {
                assert(ts.drop_first()[i - 1] == ts[i]);
                assert(type_codes_spec(ts, current)[i] == type_codes_spec(
                    ts.drop_first(),
                    current,
                )[i - 1]);
            }
        }
    }
}

/// A type's model is the empty tuple exactly when the type is.
pub proof fn lemma_view_empty_tuple(t: RustType)
    ensures
        (rust_type_view(t) is EmptyTuple) <==> (t is EmptyTuple),
{
    match t {
        RustType::EmptyTuple => {},
        RustType::PointerLike { .. } => {},
        RustType::Common { .. } => {},
        RustType::FunctionPointer { .. } => {},
    }
}

/// Renders the produced-code text of a list of types.
fn rust_types_to_codes(types: &Vec<RustType>, current_crate: &str) -> (r: Vec<String>)
    ensures
        r.deep_view() == type_codes_spec(types_view(types), current_crate@),
    decreases types,
{
    let mut out: Vec<String> = Vec::new();
    let mut i: usize = 0;
    while i < types.len()
        invariant
            i <= types@.len(),
            out@.len() == i,
            forall|k: int| 0 <= k < i ==> out@[k]@ == type_code_spec(
                rust_type_view(types@[k]),
                current_crate@,
            ),
        decreases types@.len() - i,
    {
        out.push(rust_type_to_code(&types[i], current_crate));
        i = i + 1;
    }
    proof {
        lemma_types_seq_view(types@);
        lemma_type_codes_spec(types_view(types), current_crate@);
        assert(out.deep_view() =~= type_codes_spec(types_view(types), current_crate@));
    }
    out
}

/// Renders the produced-code text of `rust_type` inside the crate named
/// `current_crate`.
pub fn rust_type_to_code(rust_type: &RustType, current_crate: &str) -> (r: String)
    ensures
        r@ == type_code_spec(rust_type@, current_crate@),
    decreases rust_type,
{
    match rust_type {
        RustType::EmptyTuple => String::from_str("()"),
        RustType::PointerLike { kind, target, is_const } => {
            let target_code = rust_type_to_code(target, current_crate);
            match kind {
                RustPointerLikeTypeKind::Pointer => {
                    let mut out = String::new();
                    if *is_const {
                        out.append("*const ");
                    } else {
                        out.append("*mut ");
                    }
                    out.append(target_code.as_str());
                    out
                },
                RustPointerLikeTypeKind::Reference { lifetime } => {
                    let mut out = String::new();
                    out.append("&");
                    match lifetime {
                        Some(l) => {
                            out.append("'");
                            out.append(l.as_str());
                            out.append(" ");
                        },
                        None => out.append(""),
                    }
                    if !*is_const {
                        out.append("mut ");
                    }
                    out.append(target_code.as_str());
                    proof {
                        assert(out@ =~= type_code_spec(rust_type@, current_crate@));
                    }
                    out
                },
            }
        },
        RustType::Common { path, generic_arguments } => {
            let mut out = path.full_name(Some(current_crate));
            match generic_arguments {
                Some(args) => {
                    out.append("<");
                    let codes = rust_types_to_codes(args, current_crate);
                    let joined = join_strings(&codes, ", ");
                    out.append(joined.as_str());
                    out.append(">");
                    proof {
                        lemma_types_seq_view(args@);
                        assert(out@ =~= type_code_spec(rust_type@, current_crate@));
                    }
                    out
                },
                None => out,
            }
        },
        RustType::FunctionPointer { return_type, arguments } => {
            let mut out = String::new();
            out.append("extern \"C\" fn(");
            let codes = rust_types_to_codes(arguments, current_crate);
            let joined = join_strings(&codes, ", ");
            out.append(joined.as_str());
            out.append(")");
            match &**return_type {
                RustType::EmptyTuple => {
                    out.append("");
                },
                rt => {
                    out.append(" -> ");
                    let rt_code = rust_type_to_code(rt, current_crate);
                    out.append(rt_code.as_str());
                },
            }
            proof {
                lemma_view_empty_tuple(**return_type);
                assert(out@ =~= type_code_spec(rust_type@, current_crate@));
            }
            out
        },
    }
}

} // verus!
