//! The merge laws of the knowledge base, stated over its mathematical model
//! and proved once and for all.
use vstd::prelude::*;
use crate::data::CppItemDataV;
use crate::data::DataEnvV;
use crate::data::DataEnvInfoV;
use crate::data::DataEnvWithInfoV;
use crate::database::DatabaseUpdateResultType;
use crate::database::DatabaseV;
use crate::database::cleared_info;
use crate::database::db_invalidate;
use crate::database::db_upsert;
use crate::database::env_find;
use crate::database::item_find;
use crate::database::item_invalidate;
use crate::database::item_upsert;
use crate::database::lemma_env_find;
use crate::database::lemma_item_find;
use crate::database::new_item;
use crate::database::rec_invalidate;

verus! {

/// After one merge of `(env, data, info)`, the entry for `data` exists, its
/// record for `env` holds exactly `info` with the staleness flag cleared, and
/// its other records are what they were.
proof fn lemma_upsert_effect(db: DatabaseV, env: DataEnvV, data: CppItemDataV, info: DataEnvInfoV)
    requires
        !info.is_invalidated,
    ensures
        ({
            let db1 = db_upsert(db, env, data, info).0;
            let j1 = item_find(db1.items, data);
            &&& 0 <= j1 < db1.items.len()
            &&& db1.items[j1].cpp_data == data
            &&& ({
                let i1 = env_find(db1.items[j1].environments, env);
                &&& 0 <= i1 < db1.items[j1].environments.len()
                &&& db1.items[j1].environments[i1].env == env
                &&& db1.items[j1].environments[i1].info == info
            })
        }),
{
    let db1 = db_upsert(db, env, data, info).0;
    let j0 = item_find(db.items, data);
    lemma_item_find(db.items, data);
    assert(cleared_info(info) == info);
    if j0 >= 0 {
        let it = db.items[j0];
        let iu = item_upsert(it, env, info);
        let it1 = iu.0;
        assert(db1.items == db.items.update(j0, it1));
        assert(it1.cpp_data == data);
        lemma_item_find(db1.items, data);
        let j1 = item_find(db1.items, data);
        assert(db1.items[j0].cpp_data == data);
        if j1 < 0 {
            assert(false);
        }
        assert(forall|k: int| 0 <= k < j0 ==> db1.items[k] == db.items[k]);
        assert(j1 == j0);
        let i0 = env_find(it.environments, env);
        lemma_env_find(it.environments, env);
        let envs1 = it1.environments;
        lemma_env_find(envs1, env);
        let i1 = env_find(envs1, env);
        if i0 >= 0 {
            assert(envs1[i0].env == env);
            assert(forall|k: int| 0 <= k < i0 ==> envs1[k] == it.environments[k]);
            if i1 < 0 {
                assert(false);
            }
            assert(i1 == i0);
            assert(envs1[i1].info == info);
        } else {
            let n = it.environments.len() as int;
            assert(envs1 == it.environments.push(DataEnvWithInfoV { env, info }));
            assert(envs1[n].env == env);
            if i1 < 0 {
                assert(false);
            }
            assert(forall|k: int| 0 <= k < n ==> envs1[k] == it.environments[k]);
            assert(i1 == n);
            assert(envs1[i1].info == info);
        }
    } else {
        let it = new_item(env, data, info);
        let n = db.items.len() as int;
        assert(db1.items == db.items.push(it));
        lemma_item_find(db1.items, data);
        let j1 = item_find(db1.items, data);
        assert(db1.items[n].cpp_data == data);
        if j1 < 0 {
            assert(false);
        }
        assert(forall|k: int| 0 <= k < n ==> db1.items[k] == db.items[k]);
        assert(j1 == n);
        let envs1 = it.environments;
        assert(envs1.len() == 1);
        assert(envs1[0].env == env);
        let i1 = env_find(envs1, env);
        assert(i1 == 0);
        assert(envs1[0].info == info);
    }
}

} // verus!

verus! {

/// Idempotence: merging the same `(environment, item, outcome)` twice reports
/// `Unchanged` on the second merge and leaves the knowledge base identical.
/// An outcome arriving with its staleness flag set is not such an input: the
/// merge always stores the record with the flag cleared.
pub proof fn lemma_upsert_idempotent(
    db: DatabaseV,
    env: DataEnvV,
    data: CppItemDataV,
    info: DataEnvInfoV,
)
    requires
        !info.is_invalidated,
    ensures
        ({
            let db1 = db_upsert(db, env, data, info).0;
            let u2 = db_upsert(db1, env, data, info);
            &&& u2.1 == DatabaseUpdateResultType::Unchanged
            &&& u2.0 == db1
        }),
{
    lemma_upsert_effect(db, env, data, info);
    let db1 = db_upsert(db, env, data, info).0;
    let j1 = item_find(db1.items, data);
    let it1 = db1.items[j1];
    let i1 = env_find(it1.environments, env);
    let u2 = db_upsert(db1, env, data, info);
    let iu2 = item_upsert(it1, env, info);
    assert(cleared_info(info) == info);
    assert(cleared_info(it1.environments[i1].info) == info);
    assert(iu2.1 == DatabaseUpdateResultType::Unchanged);
    assert(iu2.0.environments =~= it1.environments);
    assert(iu2.0 =~= it1);
    assert(u2.0.items =~= db1.items);
    assert(u2.0 =~= db1);
}

/// Environment independence: a merge for environment `env` never alters any
/// record that belongs to a different environment, in any entry; entries can
/// only grow.
pub proof fn lemma_upsert_env_independent(
    db: DatabaseV,
    env: DataEnvV,
    data: CppItemDataV,
    info: DataEnvInfoV,
)
    ensures
        db_upsert(db, env, data, info).0.items.len() >= db.items.len(),
        forall|j: int, k: int|
            (0 <= j < db.items.len() && 0 <= k < db.items[j].environments.len() && (#[trigger] db.items[j].environments[k]).env != env) ==> {
                &&& k < db_upsert(db, env, data, info).0.items[j].environments.len()
                &&& db_upsert(db, env, data, info).0.items[j].environments[k] == db.items[j].environments[k]
            },
{
    let db1 = db_upsert(db, env, data, info).0;
    let j0 = item_find(db.items, data);
    lemma_item_find(db.items, data);
    if j0 >= 0 {
        let it = db.items[j0];
        let iu = item_upsert(it, env, info);
        let i0 = env_find(it.environments, env);
        lemma_env_find(it.environments, env);
        assert forall|j: int, k: int|
            (0 <= j < db.items.len() && 0 <= k < db.items[j].environments.len() && (#[trigger] db.items[j].environments[k]).env != env) implies {
            &&& k < db1.items[j].environments.len()
            &&& db1.items[j].environments[k] == db.items[j].environments[k]
        } by {
            if j == j0 {
                if i0 >= 0 {
                    assert(it.environments[i0].env == env);
                    assert(k != i0);
                }
            }
        }
    } else {
        assert forall|j: int, k: int|
            (0 <= j < db.items.len() && 0 <= k < db.items[j].environments.len() && (#[trigger] db.items[j].environments[k]).env != env) implies {
            &&& k < db1.items[j].environments.len()
            &&& db1.items[j].environments[k] == db.items[j].environments[k]
        } by {
            assert(db1.items[j] == db.items[j]);
        }
    }
}

/// Invalidate-then-reconfirm: after an invalidation pass for `env`, every
/// record for `env` is stale; a subsequent merge of `(env, item, outcome)`
/// leaves the item's record for `env` with the staleness flag cleared, whether
/// or not the outcome changed. An outcome arriving with its staleness flag
/// already set is not such an input.
pub proof fn lemma_invalidate_then_reconfirm(
    db: DatabaseV,
    env: DataEnvV,
    data: CppItemDataV,
    info: DataEnvInfoV,
)
    requires
        !info.is_invalidated,
    ensures
        forall|j: int, k: int|
            (0 <= j < db_invalidate(db, env).items.len() && 0 <= k < db_invalidate(
                db,
                env,
            ).items[j].environments.len() && (#[trigger] db_invalidate(
                db,
                env,
            ).items[j].environments[k]).env == env) ==> db_invalidate(
                db,
                env,
            ).items[j].environments[k].info.is_invalidated,
        ({
            let dbi = db_invalidate(db, env);
            let db2 = db_upsert(dbi, env, data, info).0;
            let j2 = item_find(db2.items, data);
            &&& 0 <= j2 < db2.items.len()
            &&& ({
                let i2 = env_find(db2.items[j2].environments, env);
                &&& 0 <= i2 < db2.items[j2].environments.len()
                &&& db2.items[j2].environments[i2].env == env
                &&& !db2.items[j2].environments[i2].info.is_invalidated
            })
        }),
{
    let dbi = db_invalidate(db, env);
    assert forall|j: int, k: int|
        (0 <= j < dbi.items.len() && 0 <= k < dbi.items[j].environments.len() && (#[trigger] dbi.items[j].environments[k]).env == env) implies dbi.items[j].environments[k].info.is_invalidated by {
        assert(dbi.items[j] == item_invalidate(db.items[j], env));
        assert(dbi.items[j].environments[k] == rec_invalidate(db.items[j].environments[k], env));
    }
    lemma_upsert_effect(dbi, env, data, info);
}

/// Whether no two entries hold the same structural fact.
pub open spec fn db_keys_unique(db: DatabaseV) -> bool {
    forall|a: int, b: int|
        0 <= a < b < db.items.len() ==> #[trigger] db.items[a].cpp_data
            != #[trigger] db.items[b].cpp_data
}

/// Merge-key correctness: a merge with a fact equal to a stored one rewrites
/// that entry and creates none; a merge with a new fact appends exactly one
/// entry holding it; and entries other than the one concerned are untouched.
/// So two entries never share a payload once none did.
pub proof fn lemma_merge_key(db: DatabaseV, env: DataEnvV, data: CppItemDataV, info: DataEnvInfoV)
    ensures
        ({
            let db1 = db_upsert(db, env, data, info).0;
            let j0 = item_find(db.items, data);
            &&& (j0 >= 0 ==> {
                &&& db1.items.len() == db.items.len()
                &&& db1.items[j0].cpp_data == data
                &&& forall|j: int| 0 <= j < db.items.len() && j != j0 ==> db1.items[j]
                    == db.items[j]
            })
            &&& (j0 < 0 ==> {
                &&& db1.items.len() == db.items.len() + 1
                &&& db1.items.last().cpp_data == data
                &&& forall|j: int| 0 <= j < db.items.len() ==> db1.items[j] == db.items[j]
            })
            &&& (db_keys_unique(db) ==> db_keys_unique(db1))
        }),
{
    let db1 = db_upsert(db, env, data, info).0;
    let j0 = item_find(db.items, data);
    lemma_item_find(db.items, data);
    if j0 >= 0 {
        assert(db1.items == db.items.update(j0, item_upsert(db.items[j0], env, info).0));
        if db_keys_unique(db) {
            assert forall|a: int, b: int| 0 <= a < b < db1.items.len() implies #[trigger] db1.items[a].cpp_data != #[trigger] db1.items[b].cpp_data by {
                assert(db1.items[a].cpp_data == db.items[a].cpp_data);
                assert(db1.items[b].cpp_data == db.items[b].cpp_data);
            }
        }
    } else {
        assert(db1.items == db.items.push(new_item(env, data, info)));
        if db_keys_unique(db) {
            assert forall|a: int, b: int| 0 <= a < b < db1.items.len() implies #[trigger] db1.items[a].cpp_data != #[trigger] db1.items[b].cpp_data by {
                if b == db.items.len() as int {
                    assert(db1.items[b].cpp_data == data);
                    assert(db1.items[a].cpp_data == db.items[a].cpp_data);
                    assert(db.items[a].cpp_data != data);
                } else {
                    assert(db1.items[a].cpp_data == db.items[a].cpp_data);
                    assert(db1.items[b].cpp_data == db.items[b].cpp_data);
                }
            }
        }
    }
}

} // verus!
