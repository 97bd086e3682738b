//! The data model of the knowledge base: analysis environments, per-environment
//! outcomes, and the structural facts the native-source analysis produces.
use vstd::prelude::*;

verus! {

/// The platform triple of one analysis environment.
#[derive(Debug, PartialEq, Eq)]
pub struct Target {
    pub arch: String,
    pub os: String,
    pub family: String,
    pub env: String,
}

/// Mathematical model of a [`Target`].
#[verifier::ext_equal]
pub ghost struct TargetV {
    pub arch: Seq<char>,
    pub os: Seq<char>,
    pub family: Seq<char>,
    pub env: Seq<char>,
}

impl View for Target {
    type V = TargetV;

    open spec fn view(&self) -> TargetV {
        TargetV { arch: self.arch@, os: self.os@, family: self.family@, env: self.env@ }
    }
}

impl Clone for Target {
    fn clone(&self) -> (r: Self)
        ensures
            r@ == self@,
    {
        let r = Target {
            arch: self.arch.clone(),
            os: self.os.clone(),
            family: self.family.clone(),
            env: self.env.clone(),
        };
        proof {
            assert(r@ =~= self@);
        }
        r
    }
}

/// Which data-collection phase produced a fact: structural discovery by the
/// parser, or semantic verification by the checker.
#[derive(Debug, Clone, Copy, PartialEq, Eq, Structural)]
pub enum DataSource {
    CppParser,
    CppChecker,
}

/// The visibility of a class member in the native source.
#[derive(Debug, Clone, Copy, PartialEq, Eq, Structural)]
pub enum CppVisibility {
    Public,
    Protected,
    Private,
}

/// The model of an optional string: the view of its content, if any.
pub open spec fn opt_str_view(o: &Option<String>) -> Option<Seq<char>> {
    match o {
        Some(s) => Some(s@),
        None => None,
    }
}

/// Clones an optional string.
pub fn clone_opt_string(o: &Option<String>) -> (r: Option<String>)
    ensures
        opt_str_view(&r) == opt_str_view(o),
{
    match o {
        Some(s) => Some(s.clone()),
        None => None,
    }
}

/// Compares two optional strings by content.
pub fn opt_string_eq(a: &Option<String>, b: &Option<String>) -> (r: bool)
    ensures
        r == (opt_str_view(a) == opt_str_view(b)),
{
    match (a, b) {
        (Some(x), Some(y)) => *x == *y,
        (None, None) => true,
        _ => false,
    }
}

/// One analysis context: a platform triple, the collection phase, and the
/// native library version, if known. Used as a lookup key and never mutated.
#[derive(Debug, PartialEq, Eq)]
pub struct DataEnv {
    pub target: Target,
    pub data_source: DataSource,
    pub cpp_library_version: Option<String>,
}

/// Mathematical model of a [`DataEnv`].
#[verifier::ext_equal]
pub ghost struct DataEnvV {
    pub target: TargetV,
    pub data_source: DataSource,
    pub cpp_library_version: Option<Seq<char>>,
}

impl View for DataEnv {
    type V = DataEnvV;

    open spec fn view(&self) -> DataEnvV {
        DataEnvV {
            target: self.target@,
            data_source: self.data_source,
            cpp_library_version: opt_str_view(&self.cpp_library_version),
        }
    }
}

impl Clone for DataEnv {
    fn clone(&self) -> (r: Self)
        ensures
            r@ == self@,
    {
        let r = DataEnv {
            target: self.target.clone(),
            data_source: self.data_source,
            cpp_library_version: clone_opt_string(&self.cpp_library_version),
        };
        proof {
            assert(r@ =~= self@);
        }
        r
    }
}

/// Compares two environments; equality of the models decides record lookup.
pub fn data_env_eq(a: &DataEnv, b: &DataEnv) -> (r: bool)
    ensures
        r == (a@ == b@),
{
    let targets_eq = a.target.arch == b.target.arch && a.target.os == b.target.os
        && a.target.family == b.target.family && a.target.env == b.target.env;
    let sources_eq = match (a.data_source, b.data_source) {
        (DataSource::CppParser, DataSource::CppParser) => true,
        (DataSource::CppChecker, DataSource::CppChecker) => true,
        _ => false,
    };
    let versions_eq = opt_string_eq(&a.cpp_library_version, &b.cpp_library_version);
    let r = targets_eq && sources_eq && versions_eq;
    proof {
        if r {
            assert(a@ =~= b@);
        }
    }
    r
}

/// The exact location of a declaration in the native source.
#[derive(Debug, PartialEq, Eq)]
pub struct CppOriginLocation {
    pub include_file: String,
    pub line: u64,
    pub column: u64,
}

/// Mathematical model of a [`CppOriginLocation`].
#[verifier::ext_equal]
pub ghost struct CppOriginLocationV {
    pub include_file: Seq<char>,
    pub line: int,
    pub column: int,
}

impl View for CppOriginLocation {
    type V = CppOriginLocationV;

    open spec fn view(&self) -> CppOriginLocationV {
        CppOriginLocationV {
            include_file: self.include_file@,
            line: self.line as int,
            column: self.column as int,
        }
    }
}

impl Clone for CppOriginLocation {
    fn clone(&self) -> (r: Self)
        ensures
            r@ == self@,
    {
        let r = CppOriginLocation {
            include_file: self.include_file.clone(),
            line: self.line,
            column: self.column,
        };
        proof {
            assert(r@ =~= self@);
        }
        r
    }
}

/// The model of an optional origin location.
pub open spec fn opt_loc_view(o: &Option<CppOriginLocation>) -> Option<CppOriginLocationV> {
    match o {
        Some(l) => Some(l@),
        None => None,
    }
}

/// Clones an optional origin location.
pub fn clone_opt_loc(o: &Option<CppOriginLocation>) -> (r: Option<CppOriginLocation>)
    ensures
        opt_loc_view(&r) == opt_loc_view(o),
{
    match o {
        Some(l) => Some(l.clone()),
        None => None,
    }
}

/// Records whether analysis succeeded in one environment: an error message if
/// not, where the declaration came from, and the staleness flag set by an
/// invalidation pass and cleared on re-check.
#[derive(Debug, PartialEq, Eq)]
pub struct DataEnvInfo {
    pub is_success: bool,
    pub error: Option<String>,
    /// File name of the declaring header, without its path.
    pub include_file: Option<String>,
    /// Exact location of the declaration.
    pub origin_location: Option<CppOriginLocation>,
    /// Set before a repeated check in the same environment, cleared when the
    /// check confirms the fact.
    pub is_invalidated: bool,
}

/// Mathematical model of a [`DataEnvInfo`].
#[verifier::ext_equal]
pub ghost struct DataEnvInfoV {
    pub is_success: bool,
    pub error: Option<Seq<char>>,
    pub include_file: Option<Seq<char>>,
    pub origin_location: Option<CppOriginLocationV>,
    pub is_invalidated: bool,
}

impl View for DataEnvInfo {
    type V = DataEnvInfoV;

    open spec fn view(&self) -> DataEnvInfoV {
        DataEnvInfoV {
            is_success: self.is_success,
            error: opt_str_view(&self.error),
            include_file: opt_str_view(&self.include_file),
            origin_location: opt_loc_view(&self.origin_location),
            is_invalidated: self.is_invalidated,
        }
    }
}

impl Clone for DataEnvInfo {
    fn clone(&self) -> (r: Self)
        ensures
            r@ == self@,
    {
        let r = DataEnvInfo {
            is_success: self.is_success,
            error: clone_opt_string(&self.error),
            include_file: clone_opt_string(&self.include_file),
            origin_location: clone_opt_loc(&self.origin_location),
            is_invalidated: self.is_invalidated,
        };
        proof {
            assert(r@ =~= self@);
        }
        r
    }
}

/// Compares two optional origin locations by content.
pub fn opt_loc_eq(a: &Option<CppOriginLocation>, b: &Option<CppOriginLocation>) -> (r: bool)
    ensures
        r == (opt_loc_view(a) == opt_loc_view(b)),
{
    match (a, b) {
        (Some(x), Some(y)) => {
            let r = x.include_file == y.include_file && x.line == y.line && x.column == y.column;
            proof {
                if r {
                    assert(x@ =~= y@);
                }
            }
            r
        },
        (None, None) => true,
        _ => false,
    }
}

/// Compares two outcomes by full equality of every field.
pub fn data_env_info_eq(a: &DataEnvInfo, b: &DataEnvInfo) -> (r: bool)
    ensures
        r == (a@ == b@),
{
    let r = a.is_success == b.is_success && opt_string_eq(&a.error, &b.error) && opt_string_eq(
        &a.include_file,
        &b.include_file,
    ) && opt_loc_eq(&a.origin_location, &b.origin_location) && a.is_invalidated
        == b.is_invalidated;
    proof {
        if r {
            assert(a@ =~= b@);
        }
    }
    r
}

/// Pairs one environment with its recorded outcome; an item owns one such
/// record per environment it was ever observed in.
#[derive(Debug, PartialEq, Eq)]
pub struct DataEnvWithInfo {
    pub env: DataEnv,
    pub info: DataEnvInfo,
}

/// Mathematical model of a [`DataEnvWithInfo`].
#[verifier::ext_equal]
pub ghost struct DataEnvWithInfoV {
    pub env: DataEnvV,
    pub info: DataEnvInfoV,
}

impl View for DataEnvWithInfo {
    type V = DataEnvWithInfoV;

    open spec fn view(&self) -> DataEnvWithInfoV {
        DataEnvWithInfoV { env: self.env@, info: self.info@ }
    }
}

impl Clone for DataEnvWithInfo {
    fn clone(&self) -> (r: Self)
        ensures
            r@ == self@,
    {
        let r = DataEnvWithInfo { env: self.env.clone(), info: self.info.clone() };
        proof {
            assert(r@ =~= self@);
        }
        r
    }
}

/// The model of a vector of environment records.
pub open spec fn recs_view(v: &Vec<DataEnvWithInfo>) -> Seq<DataEnvWithInfoV> {
    Seq::new(v@.len(), |i: int| v@[i]@)
}

/// Clones a vector of environment records.
pub fn clone_recs(v: &Vec<DataEnvWithInfo>) -> (r: Vec<DataEnvWithInfo>)
    ensures
        recs_view(&r) == recs_view(v),
{
    let mut out: Vec<DataEnvWithInfo> = Vec::new();
    let mut i: usize = 0;
    while i < v.len()
        invariant
            i <= v@.len(),
            out@.len() == i,
            forall|k: int| 0 <= k < i ==> out@[k]@ == v@[k]@,
        decreases v@.len() - i,
    {
        out.push(v[i].clone());
        i = i + 1;
    }
    proof {
        assert(recs_view(&out) =~= recs_view(v));
    }
    out
}

} // verus!

verus! {

/// The model of a vector of strings: the sequence of their character
/// sequences.
pub open spec fn strs_view(v: &Vec<String>) -> Seq<Seq<char>> {
    Seq::new(v@.len(), |i: int| v@[i]@)
}

/// Clones a vector of strings.
pub fn clone_strings(v: &Vec<String>) -> (r: Vec<String>)
    ensures
        strs_view(&r) == strs_view(v),
{
    let mut out: Vec<String> = Vec::new();
    let mut i: usize = 0;
    while i < v.len()
        invariant
            i <= v@.len(),
            out@.len() == i,
            forall|k: int| 0 <= k < i ==> out@[k]@ == v@[k]@,
        decreases v@.len() - i,
    {
        out.push(v[i].clone());
        i = i + 1;
    }
    proof {
        assert(strs_view(&out) =~= strs_view(v));
    }
    out
}

/// Compares two vectors of strings by content.
pub fn strings_eq(a: &Vec<String>, b: &Vec<String>) -> (r: bool)
    ensures
        r == (strs_view(a) == strs_view(b)),
{
    if a.len() != b.len() {
        proof {
            assert(strs_view(a).len() != strs_view(b).len());
        }
        return false;
    }
    let mut i: usize = 0;
    while i < a.len()
        invariant
            a@.len() == b@.len(),
            i <= a@.len(),
            forall|k: int| 0 <= k < i ==> a@[k]@ == b@[k]@,
        decreases a@.len() - i,
    {
        if !(a[i] == b[i]) {
            proof {
                assert(strs_view(a)[i as int] != strs_view(b)[i as int]);
            }
            return false;
        }
        i = i + 1;
    }
    proof {
        assert(strs_view(a) =~= strs_view(b));
    }
    true
}

/// Placeholder fact for a class field where only its presence matters.
#[derive(Debug, Clone, Copy, PartialEq, Eq, Structural)]
pub struct CppField;

/// A type declaration discovered in the native source: an enumeration by
/// name, or a class by the canonical text of its type path.
#[derive(Debug, PartialEq, Eq)]
pub enum CppTypeData {
    Enum { name: String },
    Class { type_base: String },
}

/// Mathematical model of a [`CppTypeData`].
#[verifier::ext_equal]
pub ghost enum CppTypeDataV {
    Enum { name: Seq<char> },
    Class { type_base: Seq<char> },
}

impl View for CppTypeData {
    type V = CppTypeDataV;

    open spec fn view(&self) -> CppTypeDataV {
        match self {
            CppTypeData::Enum { name } => CppTypeDataV::Enum { name: name@ },
            CppTypeData::Class { type_base } => CppTypeDataV::Class { type_base: type_base@ },
        }
    }
}

impl Clone for CppTypeData {
    fn clone(&self) -> (r: Self)
        ensures
            r@ == self@,
    {
        match self {
            CppTypeData::Enum { name } => CppTypeData::Enum { name: name.clone() },
            CppTypeData::Class { type_base } => (CppTypeData::Class {
                type_base: type_base.clone(),
            }),
        }
    }
}

/// A method of the native API, with the structural detail needed to render a
/// canonical signature.
#[derive(Debug, PartialEq, Eq)]
pub struct CppMethod {
    pub return_type: String,
    pub name: String,
    pub arguments: Vec<String>,
    pub is_const: bool,
}

/// Mathematical model of a [`CppMethod`].
#[verifier::ext_equal]
pub ghost struct CppMethodV {
    pub return_type: Seq<char>,
    pub name: Seq<char>,
    pub arguments: Seq<Seq<char>>,
    pub is_const: bool,
}

impl View for CppMethod {
    type V = CppMethodV;

    open spec fn view(&self) -> CppMethodV {
        CppMethodV {
            return_type: self.return_type@,
            name: self.name@,
            arguments: strs_view(&self.arguments),
            is_const: self.is_const,
        }
    }
}

impl Clone for CppMethod {
    fn clone(&self) -> (r: Self)
        ensures
            r@ == self@,
    {
        let r = CppMethod {
            return_type: self.return_type.clone(),
            name: self.name.clone(),
            arguments: clone_strings(&self.arguments),
            is_const: self.is_const,
        };
        proof {
            assert(r@ =~= self@);
        }
        r
    }
}

/// One enumerator of a native enumeration.
#[derive(Debug, PartialEq, Eq)]
pub struct CppEnumValue {
    pub enum_name: String,
    pub name: String,
    pub value: i64,
}

/// Mathematical model of a [`CppEnumValue`].
#[verifier::ext_equal]
pub ghost struct CppEnumValueV {
    pub enum_name: Seq<char>,
    pub name: Seq<char>,
    pub value: int,
}

impl View for CppEnumValue {
    type V = CppEnumValueV;

    open spec fn view(&self) -> CppEnumValueV {
        CppEnumValueV {
            enum_name: self.enum_name@,
            name: self.name@,
            value: self.value as int,
        }
    }
}

impl Clone for CppEnumValue {
    fn clone(&self) -> (r: Self)
        ensures
            r@ == self@,
    {
        let r = CppEnumValue {
            enum_name: self.enum_name.clone(),
            name: self.name.clone(),
            value: self.value,
        };
        proof {
            assert(r@ =~= self@);
        }
        r
    }
}

/// A data member of a native class.
#[derive(Debug, PartialEq, Eq)]
pub struct CppClassField {
    pub class_type: String,
    pub visibility: CppVisibility,
    pub field_type: String,
    pub name: String,
}

/// Mathematical model of a [`CppClassField`].
#[verifier::ext_equal]
pub ghost struct CppClassFieldV {
    pub class_type: Seq<char>,
    pub visibility: CppVisibility,
    pub field_type: Seq<char>,
    pub name: Seq<char>,
}

impl View for CppClassField {
    type V = CppClassFieldV;

    open spec fn view(&self) -> CppClassFieldV {
        CppClassFieldV {
            class_type: self.class_type@,
            visibility: self.visibility,
            field_type: self.field_type@,
            name: self.name@,
        }
    }
}

impl Clone for CppClassField {
    fn clone(&self) -> (r: Self)
        ensures
            r@ == self@,
    {
        let r = CppClassField {
            class_type: self.class_type.clone(),
            visibility: self.visibility,
            field_type: self.field_type.clone(),
            name: self.name.clone(),
        };
        proof {
            assert(r@ =~= self@);
        }
        r
    }
}

/// A base-class edge between two native classes.
#[derive(Debug, PartialEq, Eq)]
pub struct CppBaseSpecifier {
    pub derived_class_type: String,
    pub base_class_type: String,
    pub visibility: CppVisibility,
    pub is_virtual: bool,
    pub base_index: u64,
}

/// Mathematical model of a [`CppBaseSpecifier`].
#[verifier::ext_equal]
pub ghost struct CppBaseSpecifierV {
    pub derived_class_type: Seq<char>,
    pub base_class_type: Seq<char>,
    pub visibility: CppVisibility,
    pub is_virtual: bool,
    pub base_index: int,
}

impl View for CppBaseSpecifier {
    type V = CppBaseSpecifierV;

    open spec fn view(&self) -> CppBaseSpecifierV {
        CppBaseSpecifierV {
            derived_class_type: self.derived_class_type@,
            base_class_type: self.base_class_type@,
            visibility: self.visibility,
            is_virtual: self.is_virtual,
            base_index: self.base_index as int,
        }
    }
}

impl Clone for CppBaseSpecifier {
    fn clone(&self) -> (r: Self)
        ensures
            r@ == self@,
    {
        let r = CppBaseSpecifier {
            derived_class_type: self.derived_class_type.clone(),
            base_class_type: self.base_class_type.clone(),
            visibility: self.visibility,
            is_virtual: self.is_virtual,
            base_index: self.base_index,
        };
        proof {
            assert(r@ =~= self@);
        }
        r
    }
}

/// One structural fact about the native API: the closed variant over
/// everything the native-source analysis can produce. Structural equality of
/// the payload is the merge key of the knowledge base.
#[derive(Debug, PartialEq, Eq)]
pub enum CppItemData {
    Type(CppTypeData),
    Method(CppMethod),
    EnumValue(CppEnumValue),
    ClassField(CppClassField),
    ClassBase(CppBaseSpecifier),
}

/// Mathematical model of a [`CppItemData`].
#[verifier::ext_equal]
pub ghost enum CppItemDataV {
    Type(CppTypeDataV),
    Method(CppMethodV),
    EnumValue(CppEnumValueV),
    ClassField(CppClassFieldV),
    ClassBase(CppBaseSpecifierV),
}

impl View for CppItemData {
    type V = CppItemDataV;

    open spec fn view(&self) -> CppItemDataV {
        match self {
            CppItemData::Type(t) => CppItemDataV::Type(t@),
            CppItemData::Method(m) => CppItemDataV::Method(m@),
            CppItemData::EnumValue(v) => CppItemDataV::EnumValue(v@),
            CppItemData::ClassField(f) => CppItemDataV::ClassField(f@),
            CppItemData::ClassBase(b) => CppItemDataV::ClassBase(b@),
        }
    }
}

impl Clone for CppItemData {
    fn clone(&self) -> (r: Self)
        ensures
            r@ == self@,
    {
        match self {
            CppItemData::Type(t) => CppItemData::Type(t.clone()),
            CppItemData::Method(m) => CppItemData::Method(m.clone()),
            CppItemData::EnumValue(v) => CppItemData::EnumValue(v.clone()),
            CppItemData::ClassField(f) => CppItemData::ClassField(f.clone()),
            CppItemData::ClassBase(b) => CppItemData::ClassBase(b.clone()),
        }
    }
}

/// Compares two visibilities.
pub fn visibility_eq(a: CppVisibility, b: CppVisibility) -> (r: bool)
    ensures
        r == (a == b),
{
    match (a, b) {
        (CppVisibility::Public, CppVisibility::Public) => true,
        (CppVisibility::Protected, CppVisibility::Protected) => true,
        (CppVisibility::Private, CppVisibility::Private) => true,
        _ => false,
    }
}

/// Compares two structural facts; this equality is the merge key.
pub fn cpp_item_data_eq(a: &CppItemData, b: &CppItemData) -> (r: bool)
    ensures
        r == (a@ == b@),
{
    match (a, b) {
        (CppItemData::Type(CppTypeData::Enum { name: n1 }), CppItemData::Type(CppTypeData::Enum { name: n2 })) => {
            let r = *n1 == *n2;
            proof {
                if r {
                    assert(a@ =~= b@);
                }
            }
            r
        },
        (CppItemData::Type(CppTypeData::Class { type_base: t1 }), CppItemData::Type(CppTypeData::Class { type_base: t2 })) => {
            let r = *t1 == *t2;
            proof {
                if r {
                    assert(a@ =~= b@);
                }
            }
            r
        },
        (CppItemData::Method(m1), CppItemData::Method(m2)) => {
            let r = m1.return_type == m2.return_type && m1.name == m2.name && strings_eq(
                &m1.arguments,
                &m2.arguments,
            ) && m1.is_const == m2.is_const;
            proof {
                if r {
                    assert(m1@ =~= m2@);
                    assert(a@ =~= b@);
                }
            }
            r
        },
        (CppItemData::EnumValue(v1), CppItemData::EnumValue(v2)) => {
            let r = v1.enum_name == v2.enum_name && v1.name == v2.name && v1.value == v2.value;
            proof {
                if r {
                    assert(a@ =~= b@);
                }
            }
            r
        },
        (CppItemData::ClassField(f1), CppItemData::ClassField(f2)) => {
            let r = f1.class_type == f2.class_type && visibility_eq(f1.visibility, f2.visibility)
                && f1.field_type == f2.field_type && f1.name == f2.name;
            proof {
                if r {
                    assert(a@ =~= b@);
                }
            }
            r
        },
        (CppItemData::ClassBase(b1), CppItemData::ClassBase(b2)) => {
            let r = b1.derived_class_type == b2.derived_class_type && b1.base_class_type
                == b2.base_class_type && visibility_eq(b1.visibility, b2.visibility)
                && b1.is_virtual == b2.is_virtual && b1.base_index == b2.base_index;
            proof {
                if r {
                    assert(a@ =~= b@);
                }
            }
            r
        },
        _ => false,
    }
}

/// Documentation attached to an item, kept as opaque text per variant kind.
#[derive(Debug, PartialEq, Eq)]
pub enum CppItemDoc {
    Type(String),
    Method(String),
    EnumValue(String),
}

/// Mathematical model of a [`CppItemDoc`].
#[verifier::ext_equal]
pub ghost enum CppItemDocV {
    Type(Seq<char>),
    Method(Seq<char>),
    EnumValue(Seq<char>),
}

impl View for CppItemDoc {
    type V = CppItemDocV;

    open spec fn view(&self) -> CppItemDocV {
        match self {
            CppItemDoc::Type(s) => CppItemDocV::Type(s@),
            CppItemDoc::Method(s) => CppItemDocV::Method(s@),
            CppItemDoc::EnumValue(s) => CppItemDocV::EnumValue(s@),
        }
    }
}

impl Clone for CppItemDoc {
    fn clone(&self) -> (r: Self)
        ensures
            r@ == self@,
    {
        match self {
            CppItemDoc::Type(s) => CppItemDoc::Type(s.clone()),
            CppItemDoc::Method(s) => CppItemDoc::Method(s.clone()),
            CppItemDoc::EnumValue(s) => CppItemDoc::EnumValue(s.clone()),
        }
    }
}

/// One flattened boundary function attached to an item by the external
/// signature derivation.
#[derive(Debug, PartialEq, Eq)]
pub struct CppFfiMethod {
    pub name: String,
    pub arguments: Vec<String>,
}

/// Mathematical model of a [`CppFfiMethod`].
#[verifier::ext_equal]
pub ghost struct CppFfiMethodV {
    pub name: Seq<char>,
    pub arguments: Seq<Seq<char>>,
}

impl View for CppFfiMethod {
    type V = CppFfiMethodV;

    open spec fn view(&self) -> CppFfiMethodV {
        CppFfiMethodV { name: self.name@, arguments: strs_view(&self.arguments) }
    }
}

impl Clone for CppFfiMethod {
    fn clone(&self) -> (r: Self)
        ensures
            r@ == self@,
    {
        let r = CppFfiMethod { name: self.name.clone(), arguments: clone_strings(&self.arguments) };
        proof {
            assert(r@ =~= self@);
        }
        r
    }
}

/// The model of an optional item documentation.
pub open spec fn opt_doc_view(o: &Option<CppItemDoc>) -> Option<CppItemDocV> {
    match o {
        Some(d) => Some(d@),
        None => None,
    }
}

/// The model of a vector of boundary functions.
pub open spec fn ffi_methods_view(v: &Vec<CppFfiMethod>) -> Seq<CppFfiMethodV> {
    Seq::new(v@.len(), |i: int| v@[i]@)
}

} // verus!
