//! The multi-environment knowledge base: entries pairing one structural fact
//! with the outcomes observed per analysis environment, merged by structural
//! equality of the fact and invalidated per environment.
use vstd::prelude::*;
use vstd::pervasive::VecAdditionalExecFns;
use crate::data::CppItemData;
use crate::data::CppItemDataV;
use crate::data::CppItemDoc;
use crate::data::CppItemDocV;
use crate::data::CppFfiMethod;
use crate::data::CppFfiMethodV;
use crate::data::DataEnv;
use crate::data::DataEnvV;
use crate::data::DataEnvInfo;
use crate::data::DataEnvInfoV;
use crate::data::DataEnvWithInfo;
use crate::data::DataEnvWithInfoV;
use crate::data::DataSource;
use crate::data::CppVisibility;
use crate::data::CppMethodV;
use crate::data::clone_recs;
use crate::data::data_env_eq;
use crate::data::data_env_info_eq;
use crate::data::cpp_item_data_eq;
use crate::data::ffi_methods_view;
use crate::data::opt_doc_view;
use crate::data::recs_view;
use crate::text::dec_of;
use crate::text::dec_of_int;
use crate::text::escape_html;
use crate::text::escape_html_seq;
use crate::text::i64_to_dec_string;
use crate::text::join_seqs;
use crate::text::join_strings;
use crate::text::u64_to_dec_string;

verus! {

/// What one merge call did to the knowledge base: created a new entry, added a
/// record for a new environment, overwrote a changed outcome, or nothing.
#[derive(Debug, Clone, Copy, PartialEq, Eq, Structural)]
pub enum DatabaseUpdateResultType {
    ItemAdded,
    EnvAdded,
    EnvUpdated,
    Unchanged,
}

/// One entry of the knowledge base: a structural fact, the outcome recorded
/// for every environment it was observed in, and the derived artifacts
/// attached by external passes.
#[derive(Debug, PartialEq, Eq)]
pub struct DatabaseItem {
    pub environments: Vec<DataEnvWithInfo>,
    pub cpp_data: CppItemData,
    /// Native documentation attached to this item.
    pub doc: Option<CppItemDoc>,
    pub cpp_ffi_methods: Vec<CppFfiMethod>,
    pub is_stack_allocated_type: bool,
}

/// Mathematical model of a [`DatabaseItem`].
#[verifier::ext_equal]
pub ghost struct DatabaseItemV {
    pub environments: Seq<DataEnvWithInfoV>,
    pub cpp_data: CppItemDataV,
    pub doc: Option<CppItemDocV>,
    pub cpp_ffi_methods: Seq<CppFfiMethodV>,
    pub is_stack_allocated_type: bool,
}

impl View for DatabaseItem {
    type V = DatabaseItemV;

    open spec fn view(&self) -> DatabaseItemV {
        DatabaseItemV {
            environments: recs_view(&self.environments),
            cpp_data: self.cpp_data@,
            doc: opt_doc_view(&self.doc),
            cpp_ffi_methods: ffi_methods_view(&self.cpp_ffi_methods),
            is_stack_allocated_type: self.is_stack_allocated_type,
        }
    }
}

/// Clones an optional item documentation.
pub fn clone_opt_doc(o: &Option<CppItemDoc>) -> (r: Option<CppItemDoc>)
    ensures
        opt_doc_view(&r) == opt_doc_view(o),
{
    match o {
        Some(d) => Some(d.clone()),
        None => None,
    }
}

/// Clones a vector of boundary functions.
pub fn clone_ffi_methods(v: &Vec<CppFfiMethod>) -> (r: Vec<CppFfiMethod>)
    ensures
        ffi_methods_view(&r) == ffi_methods_view(v),
{
    let mut out: Vec<CppFfiMethod> = Vec::new();
    let mut i: usize = 0;
    while i < v.len()
        invariant
            i <= v@.len(),
            out@.len() == i,
            forall|k: int| 0 <= k < i ==> out@[k]@ == v@[k]@,
        decreases v@.len() - i,
    {
        out.push(v[i].clone());
        i = i + 1;
    }
    proof {
        assert(ffi_methods_view(&out) =~= ffi_methods_view(v));
    }
    out
}

impl Clone for DatabaseItem {
    fn clone(&self) -> (r: Self)
        ensures
            r@ == self@,
    {
        let r = DatabaseItem {
            environments: clone_recs(&self.environments),
            cpp_data: self.cpp_data.clone(),
            doc: clone_opt_doc(&self.doc),
            cpp_ffi_methods: clone_ffi_methods(&self.cpp_ffi_methods),
            is_stack_allocated_type: self.is_stack_allocated_type,
        };
        proof {
            assert(r@ =~= self@);
        }
        r
    }
}

/// All collected data related to one target library.
#[derive(Debug, PartialEq, Eq)]
pub struct Database {
    pub crate_name: String,
    pub items: Vec<DatabaseItem>,
    pub environments: Vec<DataEnv>,
}

/// Mathematical model of a [`Database`].
#[verifier::ext_equal]
pub ghost struct DatabaseV {
    pub crate_name: Seq<char>,
    pub items: Seq<DatabaseItemV>,
    pub environments: Seq<DataEnvV>,
}

/// The model of a vector of entries.
pub open spec fn items_view(v: &Vec<DatabaseItem>) -> Seq<DatabaseItemV> {
    Seq::new(v@.len(), |i: int| v@[i]@)
}

/// The model of a vector of environments.
pub open spec fn envs_view(v: &Vec<DataEnv>) -> Seq<DataEnvV> {
    Seq::new(v@.len(), |i: int| v@[i]@)
}

impl View for Database {
    type V = DatabaseV;

    open spec fn view(&self) -> DatabaseV {
        DatabaseV {
            crate_name: self.crate_name@,
            items: items_view(&self.items),
            environments: envs_view(&self.environments),
        }
    }
}

/// The model of an optional outcome.
pub open spec fn opt_info_view(o: &Option<DataEnvInfo>) -> Option<DataEnvInfoV> {
    match o {
        Some(i) => Some(i@),
        None => None,
    }
}

/// What one merge call reports: the text of the item concerned, what happened,
/// the overwritten outcome if one was overwritten, and the full current record
/// list of the entry.
#[derive(Debug, PartialEq, Eq)]
pub struct DatabaseUpdateResult {
    pub item: String,
    pub result_type: DatabaseUpdateResultType,
    pub old_data: Option<DataEnvInfo>,
    pub new_data: Vec<DataEnvWithInfo>,
}

/// The index of the first record for `env`, or a negative value if none
/// exists.
pub open spec fn env_find(envs: Seq<DataEnvWithInfoV>, env: DataEnvV) -> int
    decreases envs.len(),
{
    if envs.len() == 0 {
        -1
    } else if envs[0].env == env {
        0
    } else {
        let r = env_find(envs.drop_first(), env);
        if r < 0 {
            -1
        } else {
            r + 1
        }
    }
}

/// `env_find` returns the first matching index, and a negative value exactly
/// when no record matches.
pub proof fn lemma_env_find(envs: Seq<DataEnvWithInfoV>, env: DataEnvV)
    ensures
        env_find(envs, env) < 0 ==> forall|k: int| 0 <= k < envs.len() ==> envs[k].env != env,
        env_find(envs, env) >= 0 ==> {
            &&& env_find(envs, env) < envs.len()
            &&& envs[env_find(envs, env)].env == env
            &&& forall|k: int| 0 <= k < env_find(envs, env) ==> envs[k].env != env
        },
    decreases envs.len(),
{
    if envs.len() > 0 {
        let d = envs.drop_first();
        lemma_env_find(d, env);
        if envs[0].env != env {
            if env_find(envs, env) < 0 {
                assert forall|k: int| 0 <= k < envs.len() implies envs[k].env != env by {
                    if k > 0 {
                        assert(envs[k] == d[k - 1]);
                    }
                }
            } else {
                let f = env_find(envs, env);
                assert(envs[f] == d[f - 1]);
                assert forall|k: int| 0 <= k < f implies envs[k].env != env by {
                    if k > 0 {
                        assert(envs[k] == d[k - 1]);
                    }
                }
            }
        }
    }
}

/// The index of the first entry whose fact equals `data`, or a negative value
/// if none exists.
pub open spec fn item_find(items: Seq<DatabaseItemV>, data: CppItemDataV) -> int
    decreases items.len(),
{
    if items.len() == 0 {
        -1
    } else if items[0].cpp_data == data {
        0
    } else {
        let r = item_find(items.drop_first(), data);
        if r < 0 {
            -1
        } else {
            r + 1
        }
    }
}

/// `item_find` returns the first matching index, and a negative value exactly
/// when no entry matches.
pub proof fn lemma_item_find(items: Seq<DatabaseItemV>, data: CppItemDataV)
    ensures
        item_find(items, data) < 0 ==> forall|k: int|
            0 <= k < items.len() ==> items[k].cpp_data != data,
        item_find(items, data) >= 0 ==> {
            &&& item_find(items, data) < items.len()
            &&& items[item_find(items, data)].cpp_data == data
            &&& forall|k: int| 0 <= k < item_find(items, data) ==> items[k].cpp_data != data
        },
    decreases items.len(),
{
    if items.len() > 0 {
        let d = items.drop_first();
        lemma_item_find(d, data);
        if items[0].cpp_data != data {
            if item_find(items, data) < 0 {
                assert forall|k: int| 0 <= k < items.len() implies items[k].cpp_data != data by {
                    if k > 0 {
                        assert(items[k] == d[k - 1]);
                    }
                }
            } else {
                let f = item_find(items, data);
                assert(items[f] == d[f - 1]);
                assert forall|k: int| 0 <= k < f implies items[k].cpp_data != data by {
                    if k > 0 {
                        assert(items[k] == d[k - 1]);
                    }
                }
            }
        }
    }
}

/// The outcome with its staleness flag cleared and nothing else altered.
pub open spec fn cleared_info(info: DataEnvInfoV) -> DataEnvInfoV {
    DataEnvInfoV { is_invalidated: false, ..info }
}

/// The entry-level merge: what one entry becomes when `(env, info)` is applied
/// to it, what kind of change that is, and the overwritten outcome, if any.
pub open spec fn item_upsert(item: DatabaseItemV, env: DataEnvV, info: DataEnvInfoV) -> (
    DatabaseItemV,
    DatabaseUpdateResultType,
    Option<DataEnvInfoV>,
) {
    let i = env_find(item.environments, env);
    if i >= 0 {
        let stored = cleared_info(item.environments[i].info);
        if stored == info {
            (
                DatabaseItemV {
                    environments: item.environments.update(
                        i,
                        DataEnvWithInfoV { env: item.environments[i].env, info: stored },
                    ),
                    ..item
                },
                DatabaseUpdateResultType::Unchanged,
                None,
            )
        } else {
            (
                DatabaseItemV {
                    environments: item.environments.update(
                        i,
                        DataEnvWithInfoV { env: item.environments[i].env, info },
                    ),
                    ..item
                },
                DatabaseUpdateResultType::EnvUpdated,
                Some(stored),
            )
        }
    } else {
        (
            DatabaseItemV {
                environments: item.environments.push(DataEnvWithInfoV { env, info }),
                ..item
            },
            DatabaseUpdateResultType::EnvAdded,
            None,
        )
    }
}

/// A fresh entry holding one fact observed once.
pub open spec fn new_item(env: DataEnvV, data: CppItemDataV, info: DataEnvInfoV) -> DatabaseItemV {
    DatabaseItemV {
        environments: seq![DataEnvWithInfoV { env, info }],
        cpp_data: data,
        doc: None,
        cpp_ffi_methods: Seq::empty(),
        is_stack_allocated_type: false,
    }
}

/// The database-level merge: the new database, the kind of change, the
/// overwritten outcome if any, and the full record list of the entry touched.
pub open spec fn db_upsert(
    db: DatabaseV,
    env: DataEnvV,
    data: CppItemDataV,
    info: DataEnvInfoV,
) -> (DatabaseV, DatabaseUpdateResultType, Option<DataEnvInfoV>, Seq<DataEnvWithInfoV>) {
    let j = item_find(db.items, data);
    if j >= 0 {
        let r = item_upsert(db.items[j], env, info);
        (DatabaseV { items: db.items.update(j, r.0), ..db }, r.1, r.2, r.0.environments)
    } else {
        let item = new_item(env, data, info);
        (
            DatabaseV { items: db.items.push(item), ..db },
            DatabaseUpdateResultType::ItemAdded,
            None,
            item.environments,
        )
    }
}

/// One record after an invalidation pass for `env`: its staleness flag is set
/// if the record belongs to `env`, and nothing else is altered.
pub open spec fn rec_invalidate(rec: DataEnvWithInfoV, env: DataEnvV) -> DataEnvWithInfoV {
    if rec.env == env {
        DataEnvWithInfoV { env: rec.env, info: DataEnvInfoV { is_invalidated: true, ..rec.info } }
    } else {
        rec
    }
}

/// One entry after an invalidation pass for `env`.
pub open spec fn item_invalidate(item: DatabaseItemV, env: DataEnvV) -> DatabaseItemV {
    DatabaseItemV {
        environments: Seq::new(
            item.environments.len(),
            |k: int| rec_invalidate(item.environments[k], env),
        ),
        ..item
    }
}

/// The database after an invalidation pass for `env`.
pub open spec fn db_invalidate(db: DatabaseV, env: DataEnvV) -> DatabaseV {
    DatabaseV { items: Seq::new(db.items.len(), |j: int| item_invalidate(db.items[j], env)), ..db }
}

} // verus!

verus! {

/// The phase name used in environment summaries.
pub open spec fn data_source_text(ds: DataSource) -> Seq<char> {
    match ds {
        DataSource::CppParser => "cpp_parser"@,
        DataSource::CppChecker => "cpp_checker"@,
    }
}

/// The one-line summary of an environment: version, phase, and the four
/// target fields.
pub open spec fn short_text_spec(e: DataEnvV) -> Seq<char> {
    let version = match e.cpp_library_version {
        Some(v) => v,
        None => "None"@,
    };
    version + "/"@ + data_source_text(e.data_source) + "/"@ + e.target.arch + "-"@ + e.target.os
        + "-"@ + e.target.family + "-"@ + e.target.env
}

impl DataEnv {
    /// Renders the one-line summary of this environment.
    pub fn short_text(&self) -> (r: String)
        ensures
            r@ == short_text_spec(self@),
    {
        let mut out = String::new();
        match &self.cpp_library_version {
            Some(v) => out.append(v.as_str()),
            None => out.append("None"),
        }
        out.append("/");
        match self.data_source {
            DataSource::CppParser => out.append("cpp_parser"),
            DataSource::CppChecker => out.append("cpp_checker"),
        }
        out.append("/");
        out.append(self.target.arch.as_str());
        out.append("-");
        out.append(self.target.os.as_str());
        out.append("-");
        out.append(self.target.family.as_str());
        out.append("-");
        out.append(self.target.env.as_str());
        out
    }
}

/// The report markup for one outcome: a success or error marker, the error
/// message if any, and an invalidation marker if the record is stale.
pub open spec fn to_html_log_spec(i: DataEnvInfoV) -> Seq<char> {
    let base = if i.is_success {
        "<span class='ok'>OK</span>"@
    } else {
        "<span class='ok'>Error</span>"@
    };
    let with_err = match i.error {
        Some(e) => base + " ("@ + e + ")"@,
        None => base,
    };
    if i.is_invalidated {
        with_err + " <span class='invalidated'>(invalidated)</span>"@
    } else {
        with_err
    }
}

impl DataEnvInfo {
    /// Renders the report markup for this outcome.
    pub fn to_html_log(&self) -> (r: String)
        ensures
            r@ == to_html_log_spec(self@),
    {
        let mut out = String::new();
        if self.is_success {
            out.append("<span class='ok'>OK</span>");
        } else {
            out.append("<span class='ok'>Error</span>");
        }
        match &self.error {
            Some(e) => {
                out.append(" (");
                out.append(e.as_str());
                out.append(")");
            },
            None => {},
        }
        if self.is_invalidated {
            out.append(" <span class='invalidated'>(invalidated)</span>");
        }
        out
    }
}

/// The canonical signature of a method: return type, name, the argument types
/// in declaration order, and a trailing const marker.
pub open spec fn method_short_text_spec(m: CppMethodV) -> Seq<char> {
    let base = m.return_type + " "@ + m.name + "("@ + join_seqs(m.arguments, ", "@) + ")"@;
    if m.is_const {
        base + " const"@
    } else {
        base
    }
}

impl crate::data::CppMethod {
    /// Renders the canonical signature of this method.
    pub fn short_text(&self) -> (r: String)
        ensures
            r@ == method_short_text_spec(self@),
    {
        let mut out = String::new();
        out.append(self.return_type.as_str());
        out.append(" ");
        out.append(self.name.as_str());
        out.append("(");
        let args = join_strings(&self.arguments, ", ");
        out.append(args.as_str());
        out.append(")");
        if self.is_const {
            out.append(" const");
        }
        proof {
            assert(self.arguments.deep_view() =~= self@.arguments);
        }
        out
    }
}

/// The visibility prefix used in front of a class member.
pub open spec fn vis_field_text(v: CppVisibility) -> Seq<char> {
    match v {
        CppVisibility::Public => ""@,
        CppVisibility::Protected => "protected "@,
        CppVisibility::Private => "private "@,
    }
}

/// The visibility word used in a base-class edge.
pub open spec fn vis_base_text(v: CppVisibility) -> Seq<char> {
    match v {
        CppVisibility::Public => "public"@,
        CppVisibility::Protected => "protected"@,
        CppVisibility::Private => "private"@,
    }
}

/// The canonical text of one structural fact, used for deduplication
/// diagnostics and reports.
pub open spec fn item_text_spec(d: CppItemDataV) -> Seq<char> {
    match d {
        CppItemDataV::Type(t) => match t {
            crate::data::CppTypeDataV::Enum { name } => "enum "@ + name,
            crate::data::CppTypeDataV::Class { type_base } => "class "@ + type_base,
        },
        CppItemDataV::Method(m) => method_short_text_spec(m),
        CppItemDataV::EnumValue(v) => "enum "@ + v.enum_name + " { "@ + v.name + " = "@
            + dec_of_int(v.value) + ", ... }"@,
        CppItemDataV::ClassField(f) => "class "@ + f.class_type + " { "@ + vis_field_text(
            f.visibility,
        ) + f.field_type + " "@ + f.name + "; ... }"@,
        CppItemDataV::ClassBase(b) => "class "@ + b.derived_class_type + " : "@ + (if b.is_virtual {
            "virtual "@
        } else {
            ""@
        }) + vis_base_text(b.visibility) + " "@ + b.base_class_type + (if b.base_index > 0 {
            " (index: "@ + dec_of(b.base_index)
        } else {
            ""@
        }),
    }
}

impl CppItemData {
    /// Renders the canonical text of this fact.
    pub fn to_text(&self) -> (r: String)
        ensures
            r@ == item_text_spec(self@),
    {
        match self {
            CppItemData::Type(crate::data::CppTypeData::Enum { name }) => {
                let mut out = String::new();
                out.append("enum ");
                out.append(name.as_str());
                proof {
                    assert(out@ == item_text_spec(self@));
                }
                out
            },
            CppItemData::Type(crate::data::CppTypeData::Class { type_base }) => {
                let mut out = String::new();
                out.append("class ");
                out.append(type_base.as_str());
                out
            },
            CppItemData::Method(m) => {
                let out = m.short_text();
                proof {
                    assert(out@ == item_text_spec(self@));
                }
                out
            },
            CppItemData::EnumValue(v) => {
                let mut out = String::new();
                out.append("enum ");
                out.append(v.enum_name.as_str());
                out.append(" { ");
                out.append(v.name.as_str());
                out.append(" = ");
                let value_text = i64_to_dec_string(v.value);
                out.append(value_text.as_str());
                out.append(", ... }");
                proof {
                    assert(out@ == item_text_spec(self@));
                }
                out
            },
            CppItemData::ClassField(f) => {
                let mut out = String::new();
                out.append("class ");
                out.append(f.class_type.as_str());
                out.append(" { ");
                match f.visibility {
                    CppVisibility::Public => out.append(""),
                    CppVisibility::Protected => out.append("protected "),
                    CppVisibility::Private => out.append("private "),
                }
                out.append(f.field_type.as_str());
                out.append(" ");
                out.append(f.name.as_str());
                out.append("; ... }");
                proof {
                    assert(out@ =~= item_text_spec(self@));
                }
                out
            },
            CppItemData::ClassBase(b) => {
                let mut out = String::new();
                out.append("class ");
                out.append(b.derived_class_type.as_str());
                out.append(" : ");
                if b.is_virtual {
                    out.append("virtual ");
                } else {
                    out.append("");
                }
                match b.visibility {
                    CppVisibility::Public => out.append("public"),
                    CppVisibility::Protected => out.append("protected"),
                    CppVisibility::Private => out.append("private"),
                }
                out.append(" ");
                out.append(b.base_class_type.as_str());
                if b.base_index > 0 {
                    out.append(" (index: ");
                    let index_text = u64_to_dec_string(b.base_index);
                    out.append(index_text.as_str());
                } else {
                    out.append("");
                }
                proof {
                    assert(out@ =~= item_text_spec(self@));
                }
                out
            },
        }
    }
}

/// Finds the first record for `env` in a record list.
pub fn find_env_index(envs: &Vec<DataEnvWithInfo>, env: &DataEnv) -> (r: Option<usize>)
    ensures
        match r {
            Some(i) => i < envs@.len() && env_find(recs_view(envs), env@) == i as int,
            None => env_find(recs_view(envs), env@) == -1,
        },
{
    let ghost s = recs_view(envs);
    let mut i: usize = 0;
    while i < envs.len()
        invariant
            s == recs_view(envs),
            i <= envs@.len(),
            forall|k: int| 0 <= k < i ==> s[k].env != env@,
        decreases envs@.len() - i,
    {
        if data_env_eq(&envs[i].env, env) {
            proof {
                assert(s[i as int].env == env@);
                lemma_env_find(s, env@);
            }
            return Some(i);
        }
        i = i + 1;
    }
    proof {
        lemma_env_find(s, env@);
    }
    None
}

/// Finds the first entry whose fact equals `data` in an entry list.
pub fn find_item_index(items: &Vec<DatabaseItem>, data: &CppItemData) -> (r: Option<usize>)
    ensures
        match r {
            Some(j) => j < items@.len() && item_find(items_view(items), data@) == j as int,
            None => item_find(items_view(items), data@) == -1,
        },
{
    let ghost s = items_view(items);
    let mut j: usize = 0;
    while j < items.len()
        invariant
            s == items_view(items),
            j <= items@.len(),
            forall|k: int| 0 <= k < j ==> s[k].cpp_data != data@,
        decreases items@.len() - j,
    {
        if cpp_item_data_eq(&items[j].cpp_data, data) {
            proof {
                assert(s[j as int].cpp_data == data@);
                lemma_item_find(s, data@);
            }
            return Some(j);
        }
        j = j + 1;
    }
    proof {
        lemma_item_find(s, data@);
    }
    None
}

} // verus!

verus! {

impl DatabaseItem {
    /// The entry-level merge. Clears the staleness flag of the record for
    /// `env` before comparing outcomes, so that a stale flag alone is never
    /// mistaken for a content change; overwrites a changed outcome and reports
    /// the previous one; appends a record for an unseen environment. The
    /// result always carries the full, current record list.
    pub fn add_cpp_data(&mut self, env: &DataEnv, info: DataEnvInfo) -> (r: DatabaseUpdateResult)
        ensures
            ({
                let u = item_upsert(old(self)@, env@, info@);
                &&& final(self)@ == u.0
                &&& r.result_type == u.1
                &&& opt_info_view(&r.old_data) == u.2
                &&& recs_view(&r.new_data) == u.0.environments
                &&& r.item@ == item_text_spec(old(self).cpp_data@)
            }),
    {
        let ghost u = item_upsert(old(self)@, env@, info@);
        let item_text = self.cpp_data.to_text();
        let mut result_type = DatabaseUpdateResultType::Unchanged;
        let mut old_data: Option<DataEnvInfo> = None;
        match find_env_index(&self.environments, env) {
            Some(i) => {
                proof {
                    lemma_env_find(old(self)@.environments, env@);
                }
                let stored = self.environments[i].info.clone();
                let cleared = DataEnvInfo {
                    is_success: stored.is_success,
                    error: stored.error,
                    include_file: stored.include_file,
                    origin_location: stored.origin_location,
                    is_invalidated: false,
                };
                proof {
                    assert(cleared@ =~= cleared_info(old(self)@.environments[i as int].info));
                }
                if data_env_info_eq(&cleared, &info) {
                    self.environments.set(i, DataEnvWithInfo { env: env.clone(), info: cleared });
                    proof {
                        assert(recs_view(&self.environments) =~= u.0.environments);
                        assert(self@ =~= u.0);
                    }
                } else {
                    old_data = Some(cleared);
                    result_type = DatabaseUpdateResultType::EnvUpdated;
                    self.environments.set(i, DataEnvWithInfo { env: env.clone(), info });
                    proof {
                        assert(recs_view(&self.environments) =~= u.0.environments);
                        assert(self@ =~= u.0);
                    }
                }
            },
            None => {
                result_type = DatabaseUpdateResultType::EnvAdded;
                self.environments.push(DataEnvWithInfo { env: env.clone(), info });
                proof {
                    assert(recs_view(&self.environments) =~= u.0.environments);
                    assert(self@ =~= u.0);
                }
            },
        }
        let new_data = clone_recs(&self.environments);
        DatabaseUpdateResult { item: item_text, result_type, old_data, new_data }
    }
}

impl Database {
    /// A knowledge base holding no facts yet.
    pub fn empty(crate_name: &str) -> (r: Database)
        ensures
            r@.crate_name == crate_name@,
            r@.items.len() == 0,
            r@.environments.len() == 0,
    {
        let r = Database {
            crate_name: String::from_str(crate_name),
            items: Vec::new(),
            environments: Vec::new(),
        };
        proof {
            assert(items_view(&r.items) =~= Seq::<DatabaseItemV>::empty());
            assert(envs_view(&r.environments) =~= Seq::<DataEnvV>::empty());
        }
        r
    }

    /// All entries, in insertion order.
    pub fn items(&self) -> (r: &Vec<DatabaseItem>)
        ensures
            r == &self.items,
    {
        &self.items
    }

    /// The name of the target library the knowledge base describes.
    pub fn crate_name(&self) -> (r: &str)
        ensures
            r@ == self@.crate_name,
    {
        self.crate_name.as_str()
    }

    /// The database-level merge: looks the fact up by structural equality,
    /// delegates to the entry-level merge when an entry exists, and otherwise
    /// creates a new entry with this single observation.
    pub fn add_cpp_data(&mut self, env: &DataEnv, data: &CppItemData, info: DataEnvInfo) -> (r:
        DatabaseUpdateResult)
        ensures
            ({
                let u = db_upsert(old(self)@, env@, data@, info@);
                &&& final(self)@ == u.0
                &&& r.result_type == u.1
                &&& opt_info_view(&r.old_data) == u.2
                &&& recs_view(&r.new_data) == u.3
                &&& r.item@ == item_text_spec(data@)
            }),
    {
        let ghost u = db_upsert(old(self)@, env@, data@, info@);
        match find_item_index(&self.items, data) {
            Some(j) => {
                proof {
                    lemma_item_find(old(self)@.items, data@);
                }
                let mut item = self.items.remove(j);
                let r = item.add_cpp_data(env, info);
                self.items.insert(j, item);
                proof {
                    let iu = item_upsert(old(self)@.items[j as int], env@, info@);
                    assert(items_view(&self.items) =~= old(self)@.items.update(j as int, iu.0));
                    assert(self@ =~= u.0);
                    assert(old(self)@.items[j as int].cpp_data == data@);
                }
                r
            },
            None => {
                let item_text = data.to_text();
                let rec = DataEnvWithInfo { env: env.clone(), info };
                let mut environments: Vec<DataEnvWithInfo> = Vec::new();
                environments.push(rec);
                let new_data = clone_recs(&environments);
                let item = DatabaseItem {
                    environments,
                    cpp_data: data.clone(),
                    doc: None,
                    cpp_ffi_methods: Vec::new(),
                    is_stack_allocated_type: false,
                };
                proof {
                    assert(item@ =~= new_item(env@, data@, info@));
                }
                self.items.push(item);
                proof {
                    assert(items_view(&self.items) =~= old(self)@.items.push(
                        new_item(env@, data@, info@),
                    ));
                    assert(self@ =~= u.0);
                    assert(recs_view(&new_data) =~= u.3);
                }
                DatabaseUpdateResult {
                    item: item_text,
                    result_type: DatabaseUpdateResultType::ItemAdded,
                    old_data: None,
                    new_data,
                }
            },
        }
    }

    /// Marks the record for `env` stale on every entry, altering nothing else:
    /// what was known before is provisional until reconfirmed.
    pub fn invalidate_env(&mut self, env: &DataEnv)
        ensures
            final(self)@ == db_invalidate(old(self)@, env@),
    {
        let items_len = self.items.len();
        let mut j: usize = 0;
        while j < items_len
            invariant
                items_len == old(self)@.items.len(),
                j <= items_len,
                self@.items.len() == items_len,
                self@.crate_name == old(self)@.crate_name,
                self@.environments == old(self)@.environments,
                forall|k: int|
                    0 <= k < j ==> self@.items[k] == item_invalidate(old(self)@.items[k], env@),
                forall|k: int| j <= k < items_len ==> self@.items[k] == old(self)@.items[k],
            decreases items_len - j,
        {
            let ghost snap = self@.items;
            let mut item = self.items.remove(j);
            let ghost item0 = item@;
            let recs_len = item.environments.len();
            let mut k: usize = 0;
            while k < recs_len
                invariant
                    recs_len == item0.environments.len(),
                    k <= recs_len,
                    item@.environments.len() == recs_len,
                    item@.cpp_data == item0.cpp_data,
                    item@.doc == item0.doc,
                    item@.cpp_ffi_methods == item0.cpp_ffi_methods,
                    item@.is_stack_allocated_type == item0.is_stack_allocated_type,
                    forall|m: int|
                        0 <= m < k ==> item@.environments[m] == rec_invalidate(
                            item0.environments[m],
                            env@,
                        ),
                    forall|m: int| k <= m < recs_len ==> item@.environments[m]
                        == item0.environments[m],
                decreases recs_len - k,
            {
                if data_env_eq(&item.environments[k].env, env) {
                    let mut rec = item.environments[k].clone();
                    rec.info.is_invalidated = true;
                    item.environments.set(k, rec);
                }
                k = k + 1;
            }
            proof {
                assert(item@ =~= item_invalidate(item0, env@));
            }
            self.items.insert(j, item);
            proof {
                assert(self@.items =~= snap.update(j as int, item_invalidate(item0, env@)));
            }
            j = j + 1;
        }
        proof {
            assert(self@ =~= db_invalidate(old(self)@, env@));
        }
    }
}

} // verus!

verus! {

/// One outcome line of the report.
pub open spec fn env_line_spec(rec: DataEnvWithInfoV) -> Seq<char> {
    "<li>"@ + short_text_spec(rec.env) + ": "@ + to_html_log_spec(rec.info) + "</li>"@
}

/// The outcome lines of one entry, concatenated in record order.
pub open spec fn env_lines_spec(recs: Seq<DataEnvWithInfoV>) -> Seq<char>
    decreases recs.len(),
{
    if recs.len() == 0 {
        Seq::empty()
    } else {
        env_line_spec(recs[0]) + env_lines_spec(recs.drop_first())
    }
}

proof fn lemma_env_lines_push(recs: Seq<DataEnvWithInfoV>, rec: DataEnvWithInfoV)
    ensures
        env_lines_spec(recs.push(rec)) == env_lines_spec(recs) + env_line_spec(rec),
    decreases recs.len(),
{
    if recs.len() == 0 {
        let sp = recs.push(rec);
        assert(sp.drop_first() =~= Seq::<DataEnvWithInfoV>::empty());
        assert(sp[0] == rec);
        assert(env_lines_spec(sp) == env_line_spec(rec) + env_lines_spec(
            Seq::<DataEnvWithInfoV>::empty(),
        ));
        assert(env_lines_spec(Seq::<DataEnvWithInfoV>::empty()) =~= Seq::<char>::empty());
        assert(env_lines_spec(sp) =~= env_lines_spec(recs) + env_line_spec(rec));
    } else {
        assert(recs.push(rec).drop_first() =~= recs.drop_first().push(rec));
        lemma_env_lines_push(recs.drop_first(), rec);
        assert(env_lines_spec(recs.push(rec)) =~= env_lines_spec(recs) + env_line_spec(rec));
    }
}

/// One table row of the report: the escaped item text and its outcome list.
pub open spec fn item_row_spec(item: DatabaseItemV) -> Seq<char> {
    "<tr><td>"@ + escape_html_seq(item_text_spec(item.cpp_data)) + "</td><td><ul>"@
        + env_lines_spec(item.environments) + "</ul></td></tr>\n"@
}

/// The table rows of the report, one per entry, in entry order.
pub open spec fn rows_spec(items: Seq<DatabaseItemV>) -> Seq<char>
    decreases items.len(),
{
    if items.len() == 0 {
        Seq::empty()
    } else {
        item_row_spec(items[0]) + rows_spec(items.drop_first())
    }
}

proof fn lemma_rows_push(items: Seq<DatabaseItemV>, item: DatabaseItemV)
    ensures
        rows_spec(items.push(item)) == rows_spec(items) + item_row_spec(item),
    decreases items.len(),
{
    if items.len() == 0 {
        let sp = items.push(item);
        assert(sp.drop_first() =~= Seq::<DatabaseItemV>::empty());
        assert(sp[0] == item);
        assert(rows_spec(sp) == item_row_spec(item) + rows_spec(Seq::<DatabaseItemV>::empty()));
        assert(rows_spec(Seq::<DatabaseItemV>::empty()) =~= Seq::<char>::empty());
        assert(rows_spec(sp) =~= rows_spec(items) + item_row_spec(item));
    } else {
        assert(items.push(item).drop_first() =~= items.drop_first().push(item));
        lemma_rows_push(items.drop_first(), item);
        assert(rows_spec(items.push(item)) =~= rows_spec(items) + item_row_spec(item));
    }
}

/// The whole diagnostic table: a header row, then one row per entry.
pub open spec fn report_spec(db: DatabaseV) -> Seq<char> {
    "<tr><th>Item</th><th>Environments</th></tr>\n"@ + rows_spec(db.items)
}

impl Database {
    /// Renders the diagnostic table: one row per entry, the item text escaped,
    /// with a nested list of environment summaries and their outcomes. A pure
    /// read; where the markup goes is the caller's concern.
    pub fn print_as_html(&self) -> (r: String)
        ensures
            r@ == report_spec(self@),
    {
        let mut out = String::new();
        out.append("<tr><th>Item</th><th>Environments</th></tr>\n");
        let items_len = self.items.len();
        let mut j: usize = 0;
        while j < items_len
            invariant
                items_len == self@.items.len(),
                j <= items_len,
                out@ == "<tr><th>Item</th><th>Environments</th></tr>\n"@ + rows_spec(
                    self@.items.take(j as int),
                ),
            decreases items_len - j,
        {
            let ghost row_start = out@;
            let item = &self.items[j];
            out.append("<tr><td>");
            let text = item.cpp_data.to_text();
            let escaped = escape_html(text.as_str());
            out.append(escaped.as_str());
            out.append("</td><td><ul>");
            let ghost mid = out@;
            let recs_len = item.environments.len();
            let mut k: usize = 0;
            while k < recs_len
                invariant
                    recs_len == item@.environments.len(),
                    k <= recs_len,
                    out@ == mid + env_lines_spec(item@.environments.take(k as int)),
                decreases recs_len - k,
            {
                out.append("<li>");
                let st = item.environments[k].env.short_text();
                out.append(st.as_str());
                out.append(": ");
                let hl = item.environments[k].info.to_html_log();
                out.append(hl.as_str());
                out.append("</li>");
                proof {
                    lemma_env_lines_push(
                        item@.environments.take(k as int),
                        item@.environments[k as int],
                    );
                    assert(item@.environments.take(k + 1 as int) =~= item@.environments.take(
                        k as int,
                    ).push(item@.environments[k as int]));
                    assert(out@ =~= mid + env_lines_spec(item@.environments.take(k + 1 as int)));
                }
                k = k + 1;
            }
            out.append("</ul></td></tr>\n");
            proof {
                assert(item@.environments.take(recs_len as int) =~= item@.environments);
                lemma_rows_push(self@.items.take(j as int), self@.items[j as int]);
                assert(self@.items.take(j + 1 as int) =~= self@.items.take(j as int).push(
                    self@.items[j as int],
                ));
                assert(out@ =~= row_start + item_row_spec(self@.items[j as int]));
                assert(out@ =~= "<tr><th>Item</th><th>Environments</th></tr>\n"@ + rows_spec(
                    self@.items.take(j + 1 as int),
                ));
            }
            j = j + 1;
        }
        proof {
            assert(self@.items.take(items_len as int) =~= self@.items);
        }
        out
    }
}

} // verus!
