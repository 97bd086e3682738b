//! What the code synthesis engine consumes: the produced crate's item tree,
//! each function carrying its dual-typed signature and its flattened boundary
//! call target.
use vstd::prelude::*;
use crate::data::CppFfiMethod;
use crate::data::CppFfiMethodV;
use crate::data::opt_str_view;
use crate::rust_type::CompleteType;
use crate::rust_type::CompleteTypeV;
use crate::rust_type::RustPath;
use crate::rust_type::RustToFfiTypeConversion;
use crate::rust_type::RustType;
use crate::rust_type::RustTypeV;
use crate::rust_type::RustTypeV::Common;
use crate::rust_type::RustTypeV::PointerLike;
use crate::rust_type::RustPointerLikeTypeKindV;
use crate::data::strs_view;

verus! {

/// Where a produced function stands: in an inherent impl, in a trait impl, or
/// free in its module.
#[derive(Debug, Clone, Copy, PartialEq, Eq, Structural)]
pub enum RustFunctionScope {
    Impl,
    TraitImpl,
    Free,
}

/// One argument of a produced wrapper function.
#[derive(Debug, PartialEq, Eq)]
pub struct RustFunctionArgument {
    pub argument_type: CompleteType,
    pub name: String,
    /// The position of this argument in the flattened boundary call.
    pub ffi_index: usize,
}

/// Mathematical model of a [`RustFunctionArgument`].
#[verifier::ext_equal]
pub ghost struct RustFunctionArgumentV {
    pub argument_type: CompleteTypeV,
    pub name: Seq<char>,
    pub ffi_index: int,
}

impl View for RustFunctionArgument {
    type V = RustFunctionArgumentV;

    open spec fn view(&self) -> RustFunctionArgumentV {
        RustFunctionArgumentV {
            argument_type: self.argument_type@,
            name: self.name@,
            ffi_index: self.ffi_index as int,
        }
    }
}

/// The model of a vector of wrapper-function arguments.
pub open spec fn args_view(v: &Vec<RustFunctionArgument>) -> Seq<RustFunctionArgumentV> {
    Seq::new(v@.len(), |i: int| v@[i]@)
}

/// The flattened call target of a wrapper function: the boundary function it
/// calls, and which boundary slot, if any, is the out-parameter for the
/// return value.
#[derive(Debug, PartialEq, Eq)]
pub struct RustFfiWrapperData {
    pub cpp_ffi_function: CppFfiMethod,
    pub ffi_function_path: RustPath,
    pub return_type_ffi_index: Option<usize>,
}

/// Mathematical model of a [`RustFfiWrapperData`].
#[verifier::ext_equal]
pub ghost struct RustFfiWrapperDataV {
    pub cpp_ffi_function: CppFfiMethodV,
    pub ffi_function_path: Seq<Seq<char>>,
    pub return_type_ffi_index: Option<int>,
}

impl View for RustFfiWrapperData {
    type V = RustFfiWrapperDataV;

    open spec fn view(&self) -> RustFfiWrapperDataV {
        RustFfiWrapperDataV {
            cpp_ffi_function: self.cpp_ffi_function@,
            ffi_function_path: self.ffi_function_path@,
            return_type_ffi_index: match self.return_type_ffi_index {
                Some(i) => Some(i as int),
                None => None,
            },
        }
    }
}

/// What a produced function does: wrap a boundary call, name the deleter of a
/// native object, or fetch a signal or slot accessor.
#[derive(Debug, PartialEq, Eq)]
pub enum RustFunctionKind {
    FfiWrapper(RustFfiWrapperData),
    CppDeletableImpl { deleter: RustPath },
    SignalOrSlotGetter,
}

/// Mathematical model of a [`RustFunctionKind`].
#[verifier::ext_equal]
pub ghost enum RustFunctionKindV {
    FfiWrapper(RustFfiWrapperDataV),
    CppDeletableImpl { deleter: Seq<Seq<char>> },
    SignalOrSlotGetter,
}

impl View for RustFunctionKind {
    type V = RustFunctionKindV;

    open spec fn view(&self) -> RustFunctionKindV {
        match self {
            RustFunctionKind::FfiWrapper(d) => RustFunctionKindV::FfiWrapper(d@),
            RustFunctionKind::CppDeletableImpl { deleter } => (RustFunctionKindV::CppDeletableImpl {
                deleter: deleter@,
            }),
            RustFunctionKind::SignalOrSlotGetter => RustFunctionKindV::SignalOrSlotGetter,
        }
    }
}

/// One produced wrapper function.
#[derive(Debug, PartialEq, Eq)]
pub struct RustFunction {
    pub path: RustPath,
    pub scope: RustFunctionScope,
    pub is_unsafe: bool,
    pub kind: RustFunctionKind,
    pub arguments: Vec<RustFunctionArgument>,
    pub return_type: CompleteType,
    pub doc: String,
}

/// Mathematical model of a [`RustFunction`].
#[verifier::ext_equal]
pub ghost struct RustFunctionV {
    pub path: Seq<Seq<char>>,
    pub scope: RustFunctionScope,
    pub is_unsafe: bool,
    pub kind: RustFunctionKindV,
    pub arguments: Seq<RustFunctionArgumentV>,
    pub return_type: CompleteTypeV,
    pub doc: Seq<char>,
}

impl View for RustFunction {
    type V = RustFunctionV;

    open spec fn view(&self) -> RustFunctionV {
        RustFunctionV {
            path: self.path@,
            scope: self.scope,
            is_unsafe: self.is_unsafe,
            kind: self.kind@,
            arguments: args_view(&self.arguments),
            return_type: self.return_type@,
            doc: self.doc@,
        }
    }
}

/// The model of a vector of produced functions.
pub open spec fn fns_view(v: &Vec<RustFunction>) -> Seq<RustFunctionV> {
    Seq::new(v@.len(), |i: int| v@[i]@)
}

/// One produced module.
#[derive(Debug, PartialEq, Eq)]
pub struct RustModule {
    pub path: RustPath,
    pub doc: String,
}

/// Mathematical model of a [`RustModule`].
#[verifier::ext_equal]
pub ghost struct RustModuleV {
    pub path: Seq<Seq<char>>,
    pub doc: Seq<char>,
}

impl View for RustModule {
    type V = RustModuleV;

    open spec fn view(&self) -> RustModuleV {
        RustModuleV { path: self.path@, doc: self.doc@ }
    }
}

/// What a produced wrapper struct stands for.
#[derive(Debug, Clone, Copy, PartialEq, Eq, Structural)]
pub enum RustWrapperTypeKind {
    EnumWrapper,
    ImmovableClassWrapper,
    MovableClassWrapper,
}

/// The data of a produced callback trampoline type: the dual types of the
/// callback's arguments, the pseudo-code of their native types, and the path
/// of the produced callback entry point.
#[derive(Debug, PartialEq, Eq)]
pub struct QtSlotWrapper {
    pub arguments: Vec<CompleteType>,
    pub cpp_arguments: Vec<String>,
    pub callback_path: RustPath,
}

/// Mathematical model of a [`QtSlotWrapper`].
#[verifier::ext_equal]
pub ghost struct QtSlotWrapperV {
    pub arguments: Seq<CompleteTypeV>,
    pub cpp_arguments: Seq<Seq<char>>,
    pub callback_path: Seq<Seq<char>>,
}

/// The model of a vector of dual types.
pub open spec fn complete_types_view(v: &Vec<CompleteType>) -> Seq<CompleteTypeV> {
    Seq::new(v@.len(), |i: int| v@[i]@)
}

impl View for QtSlotWrapper {
    type V = QtSlotWrapperV;

    open spec fn view(&self) -> QtSlotWrapperV {
        QtSlotWrapperV {
            arguments: complete_types_view(&self.arguments),
            cpp_arguments: strs_view(&self.cpp_arguments),
            callback_path: self.callback_path@,
        }
    }
}

/// The kind of a produced struct.
#[derive(Debug, PartialEq, Eq)]
pub enum RustStructKind {
    WrapperType { kind: RustWrapperTypeKind },
    QtSlotWrapper(QtSlotWrapper),
    FfiClassType,
    SizedType,
}

/// Mathematical model of a [`RustStructKind`].
#[verifier::ext_equal]
pub ghost enum RustStructKindV {
    WrapperType { kind: RustWrapperTypeKind },
    QtSlotWrapper(QtSlotWrapperV),
    FfiClassType,
    SizedType,
}

impl View for RustStructKind {
    type V = RustStructKindV;

    open spec fn view(&self) -> RustStructKindV {
        match self {
            RustStructKind::WrapperType { kind } => RustStructKindV::WrapperType { kind: *kind },
            RustStructKind::QtSlotWrapper(w) => RustStructKindV::QtSlotWrapper(w@),
            RustStructKind::FfiClassType => RustStructKindV::FfiClassType,
            RustStructKind::SizedType => RustStructKindV::SizedType,
        }
    }
}

/// One produced struct.
#[derive(Debug, PartialEq, Eq)]
pub struct RustStruct {
    pub path: RustPath,
    pub is_public: bool,
    pub kind: RustStructKind,
    pub doc: String,
}

/// Mathematical model of a [`RustStruct`].
#[verifier::ext_equal]
pub ghost struct RustStructV {
    pub path: Seq<Seq<char>>,
    pub is_public: bool,
    pub kind: RustStructKindV,
    pub doc: Seq<char>,
}

impl View for RustStruct {
    type V = RustStructV;

    open spec fn view(&self) -> RustStructV {
        RustStructV {
            path: self.path@,
            is_public: self.is_public,
            kind: self.kind@,
            doc: self.doc@,
        }
    }
}

/// One produced enumerator constant.
#[derive(Debug, PartialEq, Eq)]
pub struct RustEnumValue {
    pub path: RustPath,
    pub value: i64,
    pub doc: String,
}

/// Mathematical model of a [`RustEnumValue`].
#[verifier::ext_equal]
pub ghost struct RustEnumValueV {
    pub path: Seq<Seq<char>>,
    pub value: int,
    pub doc: Seq<char>,
}

impl View for RustEnumValue {
    type V = RustEnumValueV;

    open spec fn view(&self) -> RustEnumValueV {
        RustEnumValueV { path: self.path@, value: self.value as int, doc: self.doc@ }
    }
}

/// One associated type of a produced trait impl.
#[derive(Debug, PartialEq, Eq)]
pub struct RustTraitAssociatedType {
    pub name: String,
    pub value: RustType,
}

/// Mathematical model of a [`RustTraitAssociatedType`].
#[verifier::ext_equal]
pub ghost struct RustTraitAssociatedTypeV {
    pub name: Seq<char>,
    pub value: RustTypeV,
}

impl View for RustTraitAssociatedType {
    type V = RustTraitAssociatedTypeV;

    open spec fn view(&self) -> RustTraitAssociatedTypeV {
        RustTraitAssociatedTypeV { name: self.name@, value: self.value@ }
    }
}

/// The model of a vector of associated types.
pub open spec fn assoc_types_view(v: &Vec<RustTraitAssociatedType>) -> Seq<
    RustTraitAssociatedTypeV,
> {
    Seq::new(v@.len(), |i: int| v@[i]@)
}

/// One produced trait impl.
#[derive(Debug, PartialEq, Eq)]
pub struct RustTraitImpl {
    pub path: RustPath,
    pub trait_type: RustType,
    pub target_type: RustType,
    pub associated_types: Vec<RustTraitAssociatedType>,
    pub functions: Vec<RustFunction>,
}

/// Mathematical model of a [`RustTraitImpl`].
#[verifier::ext_equal]
pub ghost struct RustTraitImplV {
    pub path: Seq<Seq<char>>,
    pub trait_type: RustTypeV,
    pub target_type: RustTypeV,
    pub associated_types: Seq<RustTraitAssociatedTypeV>,
    pub functions: Seq<RustFunctionV>,
}

impl View for RustTraitImpl {
    type V = RustTraitImplV;

    open spec fn view(&self) -> RustTraitImplV {
        RustTraitImplV {
            path: self.path@,
            trait_type: self.trait_type@,
            target_type: self.target_type@,
            associated_types: assoc_types_view(&self.associated_types),
            functions: fns_view(&self.functions),
        }
    }
}

/// One item of the produced crate.
#[derive(Debug, PartialEq, Eq)]
pub enum RustItemKind {
    Module(RustModule),
    Struct(RustStruct),
    EnumValue(RustEnumValue),
    TraitImpl(RustTraitImpl),
    Function(RustFunction),
}

/// Mathematical model of a [`RustItemKind`].
#[verifier::ext_equal]
pub ghost enum RustItemKindV {
    Module(RustModuleV),
    Struct(RustStructV),
    EnumValue(RustEnumValueV),
    TraitImpl(RustTraitImplV),
    Function(RustFunctionV),
}

impl View for RustItemKind {
    type V = RustItemKindV;

    open spec fn view(&self) -> RustItemKindV {
        match self {
            RustItemKind::Module(m) => RustItemKindV::Module(m@),
            RustItemKind::Struct(s) => RustItemKindV::Struct(s@),
            RustItemKind::EnumValue(v) => RustItemKindV::EnumValue(v@),
            RustItemKind::TraitImpl(t) => RustItemKindV::TraitImpl(t@),
            RustItemKind::Function(f) => RustItemKindV::Function(f@),
        }
    }
}

/// The tree position of an item: the path of its payload.
pub open spec fn item_path_spec(k: RustItemKindV) -> Seq<Seq<char>> {
    match k {
        RustItemKindV::Module(m) => m.path,
        RustItemKindV::Struct(s) => s.path,
        RustItemKindV::EnumValue(v) => v.path,
        RustItemKindV::TraitImpl(t) => t.path,
        RustItemKindV::Function(f) => f.path,
    }
}

/// One entry of the produced crate's item tree.
#[derive(Debug, PartialEq, Eq)]
pub struct RustDatabaseItem {
    pub kind: RustItemKind,
}

impl View for RustDatabaseItem {
    type V = RustItemKindV;

    open spec fn view(&self) -> RustItemKindV {
        self.kind@
    }
}

impl RustDatabaseItem {
    /// The tree position of this item.
    pub fn path(&self) -> (r: &RustPath)
        ensures
            r@ == item_path_spec(self@),
    {
        match &self.kind {
            RustItemKind::Module(m) => &m.path,
            RustItemKind::Struct(s) => &s.path,
            RustItemKind::EnumValue(v) => &v.path,
            RustItemKind::TraitImpl(t) => &t.path,
            RustItemKind::Function(f) => &f.path,
        }
    }
}

/// The produced crate's full item tree, plus extra crate-level documentation.
#[derive(Debug, PartialEq, Eq)]
pub struct RustDatabase {
    pub items: Vec<RustDatabaseItem>,
    pub lib_extra_doc: Option<String>,
}

/// Mathematical model of a [`RustDatabase`].
#[verifier::ext_equal]
pub ghost struct RustDatabaseV {
    pub items: Seq<RustItemKindV>,
    pub lib_extra_doc: Option<Seq<char>>,
}

/// The model of the item list.
pub open spec fn rust_items_view(v: &Vec<RustDatabaseItem>) -> Seq<RustItemKindV> {
    Seq::new(v@.len(), |i: int| v@[i]@)
}

impl View for RustDatabase {
    type V = RustDatabaseV;

    open spec fn view(&self) -> RustDatabaseV {
        RustDatabaseV {
            items: rust_items_view(&self.items),
            lib_extra_doc: opt_str_view(&self.lib_extra_doc),
        }
    }
}

/// One per-item synthesis failure: the path text of the item that could not be
/// generated and the rule it broke. Generation goes on with the other items.
#[derive(Debug, PartialEq, Eq)]
pub struct SynthesisFailure {
    pub item: String,
    pub error: crate::rust_type::GenError,
}

/// Mathematical model of a [`SynthesisFailure`].
#[verifier::ext_equal]
pub ghost struct SynthesisFailureV {
    pub item: Seq<char>,
    pub error: crate::rust_type::GenError,
}

impl View for SynthesisFailure {
    type V = SynthesisFailureV;

    open spec fn view(&self) -> SynthesisFailureV {
        SynthesisFailureV { item: self.item@, error: self.error }
    }
}

/// The model of a vector of synthesis failures.
pub open spec fn failures_view(v: &Vec<SynthesisFailure>) -> Seq<SynthesisFailureV> {
    Seq::new(v@.len(), |i: int| v@[i]@)
}

/// One argument of a boundary declaration.
#[derive(Debug, PartialEq, Eq)]
pub struct RustFFIArgument {
    pub name: String,
    pub argument_type: RustType,
}

/// Mathematical model of a [`RustFFIArgument`].
#[verifier::ext_equal]
pub ghost struct RustFFIArgumentV {
    pub name: Seq<char>,
    pub argument_type: RustTypeV,
}

impl View for RustFFIArgument {
    type V = RustFFIArgumentV;

    open spec fn view(&self) -> RustFFIArgumentV {
        RustFFIArgumentV { name: self.name@, argument_type: self.argument_type@ }
    }
}

/// The model of a vector of boundary declaration arguments.
pub open spec fn ffi_args_view(v: &Vec<RustFFIArgument>) -> Seq<RustFFIArgumentV> {
    Seq::new(v@.len(), |i: int| v@[i]@)
}

/// One boundary function declaration.
#[derive(Debug, PartialEq, Eq)]
pub struct RustFFIFunction {
    pub return_type: RustType,
    pub path: RustPath,
    pub arguments: Vec<RustFFIArgument>,
}

/// Mathematical model of a [`RustFFIFunction`].
#[verifier::ext_equal]
pub ghost struct RustFFIFunctionV {
    pub return_type: RustTypeV,
    pub path: Seq<Seq<char>>,
    pub arguments: Seq<RustFFIArgumentV>,
}

impl View for RustFFIFunction {
    type V = RustFFIFunctionV;

    open spec fn view(&self) -> RustFFIFunctionV {
        RustFFIFunctionV {
            return_type: self.return_type@,
            path: self.path@,
            arguments: ffi_args_view(&self.arguments),
        }
    }
}

/// A dual type whose conversion never asserts an impossible shape: a bitflag
/// conversion stands on a named wrapper type.
pub open spec fn complete_type_wf(t: CompleteTypeV) -> bool {
    t.rust_api_to_ffi_conversion == RustToFfiTypeConversion::QFlagsToUInt
        ==> t.rust_api_type is Common
}

/// A receiver argument whose wrapper type has a renderable shape: a plain
/// named type or a reference.
pub open spec fn self_arg_wf(a: RustFunctionArgumentV) -> bool {
    a.name == "self"@ ==> (a.argument_type.rust_api_type is Common
        || (a.argument_type.rust_api_type matches PointerLike {
        kind: RustPointerLikeTypeKindV::Reference { .. },
        ..
    }))
}

/// A wrapper function the engine can render: a kind it implements, every
/// argument slot inside the boundary call's argument list, every conversion
/// against a possible shape, and a renderable receiver.
pub open spec fn function_wf(f: RustFunctionV) -> bool {
    &&& f.path.len() > 0
    &&& !(f.kind is SignalOrSlotGetter)
    &&& complete_type_wf(f.return_type)
    &&& (f.kind matches RustFunctionKindV::FfiWrapper(d) ==> {
        &&& forall|i: int| 0 <= i < f.arguments.len() ==> 0 <= #[trigger] f.arguments[i].ffi_index
            < d.cpp_ffi_function.arguments.len()
        &&& (d.return_type_ffi_index matches Some(ri) ==> 0 <= ri
            < d.cpp_ffi_function.arguments.len())
    })
    &&& forall|i: int| 0 <= i < f.arguments.len() ==> self_arg_wf(#[trigger] f.arguments[i])
}

} // verus!
