//! Tenant queries and reference resolution.

use vstd::prelude::*;
use crate::entities::{Group, GroupRef, Tenant, TenantRef, User, UserRef};
use crate::tenants::structures::CreateTenant;
use crate::groups::structures::{GroupType, RawGroup};
use crate::store::{
    group_of_type_in, group_ref_resolves, tenant_ref_resolves, user_in_tenant, AuthDb, GroupRow,
    Membership,
};
use crate::tenants::error::TenantEndpointError;
use crate::UserAuthError;

verus! {

/// Resolve an external tenant reference to its internal key, through the
/// bounded memoization cache; a miss scans the store and memoizes the
/// translation.
pub fn decode_tenant_ref(db: &mut AuthDb, reference: TenantRef) -> (r: Result<u64, UserAuthError>)
    requires
        old(db).wf(),
    ensures
        final(db).wf(),
        final(db).same_data(old(db)),
        match r {
            Ok(id) => old(db).spec_tenant_ref_resolves_to(reference, id),
            Err(e) => !old(db).spec_tenant_ref_exists(reference) && (e matches
                UserAuthError::TenantEndpoint(te) && te matches TenantEndpointError::TenantNonExistent(tr)
                && tr == reference),
        },
{
    match db.tenant_decode_cache.lookup(reference.code) {
        Some(id) => {
            proof {
                assert(tenant_ref_resolves(
                    db.tenants@,
                    TenantRef { code: reference.code },
                    id,
                ));
            }
            Ok(id)
        },
        None => {
            match db.find_tenant_by_ref(&reference) {
                Some(i) => {
                    let id = db.tenants[i].id;
                    db.tenant_decode_cache.insert(reference.code, id);
                    proof {
                        assert forall|k: int|
                            0 <= k < db.tenant_decode_cache.entries@.len()
                                implies tenant_ref_resolves(
                            db.tenants@,
                            TenantRef {
                                code: (#[trigger] db.tenant_decode_cache.entries@[k]).key,
                            },
                            db.tenant_decode_cache.entries@[k].val,
                        ) by {
                            let e = db.tenant_decode_cache.entries@[k];
                            if e == (crate::resolver::CacheEntry {
                                key: reference.code,
                                val: id,
                            }) {
                                assert(db.tenants@[i as int].tenant_ref == (TenantRef {
                                    code: reference.code,
                                }));
                            } else {
                                assert(old(db).tenant_decode_cache.spec_maps(e.key, e.val));
                                let w = choose|w: int|
                                    0 <= w < old(db).tenant_decode_cache.entries@.len() && old(
                                        db,
                                    ).tenant_decode_cache.entries@[w]
                                        == (crate::resolver::CacheEntry {
                                        key: e.key,
                                        val: e.val,
                                    });
                                assert(tenant_ref_resolves(
                                    db.tenants@,
                                    TenantRef { code: e.key },
                                    e.val,
                                ));
                            }
                        }
                    }
                    Ok(id)
                },
                None => Err(
                    UserAuthError::TenantEndpoint(
                        TenantEndpointError::TenantNonExistent(reference),
                    ),
                ),
            }
        },
    }
}

/// Translate an internal tenant key back to its external reference,
/// through the encode cache; the key must name a stored tenant.
pub fn encode_tenant_ref(db: &mut AuthDb, internal: u64) -> (r: TenantRef)
    requires
        old(db).wf(),
        old(db).spec_tenant_id_exists(internal),
    ensures
        final(db).wf(),
        final(db).same_data(old(db)),
        old(db).spec_tenant_ref_resolves_to(r, internal),
{
    match db.tenant_encode_cache.lookup(internal) {
        Some(code) => {
            proof {
                assert(tenant_ref_resolves(db.tenants@, TenantRef { code }, internal));
            }
            TenantRef { code }
        },
        None => {
            let i = match db.find_tenant_by_id(internal) {
                Some(i) => i,
                None => {
                    proof {
                        let w = choose|w: int|
                            0 <= w < db.tenants@.len() && db.tenants@[w].id == internal;
                        assert(false);
                    }
                    0
                },
            };
            let reference = db.tenants[i].tenant_ref;
            db.tenant_encode_cache.insert(internal, reference.code);
            proof {
                assert forall|k: int|
                    0 <= k < db.tenant_encode_cache.entries@.len() implies tenant_ref_resolves(
                    db.tenants@,
                    TenantRef { code: (#[trigger] db.tenant_encode_cache.entries@[k]).val },
                    db.tenant_encode_cache.entries@[k].key,
                ) by {
                    let e = db.tenant_encode_cache.entries@[k];
                    if e == (crate::resolver::CacheEntry { key: internal, val: reference.code }) {
                        assert(db.tenants@[i as int].tenant_ref == (TenantRef {
                            code: reference.code,
                        }));
                    } else {
                        assert(old(db).tenant_encode_cache.spec_maps(e.key, e.val));
                        let w = choose|w: int|
                            0 <= w < old(db).tenant_encode_cache.entries@.len() && old(
                                db,
                            ).tenant_encode_cache.entries@[w] == (crate::resolver::CacheEntry {
                                key: e.key,
                                val: e.val,
                            });
                        assert(tenant_ref_resolves(
                            db.tenants@,
                            TenantRef { code: e.val },
                            e.key,
                        ));
                    }
                }
            }
            reference
        },
    }
}

/// Some group of the tenant and type has this internal key.
pub open spec fn tenant_group_with_id(
    groups: Seq<GroupRow>,
    tenant_id: u64,
    group_type: GroupType,
    id: u64,
) -> bool {
    exists|i: int|
        0 <= i < groups.len() && (#[trigger] groups[i]).tenant_id == tenant_id
            && groups[i].group_type == group_type && groups[i].id == id
}

/// Some group of the tenant and type has this external reference.
pub open spec fn tenant_group_with_ref(
    groups: Seq<GroupRow>,
    tenant_id: u64,
    group_type: GroupType,
    gr: GroupRef,
) -> bool {
    exists|i: int|
        0 <= i < groups.len() && (#[trigger] groups[i]).tenant_id == tenant_id
            && groups[i].group_type == group_type && groups[i].group_ref == gr
}

/// The raw group is the faithful view of some stored group of the tenant
/// and type.
pub open spec fn tenant_raw_group_matches(
    groups: Seq<GroupRow>,
    tenant_id: u64,
    group_type: GroupType,
    rg: RawGroup,
) -> bool {
    exists|i: int|
        0 <= i < groups.len() && (#[trigger] groups[i]).tenant_id == tenant_id
            && groups[i].group_type == group_type && groups[i].group_ref == rg.group_ref
            && crate::users::structures::spec_opt_string_eq(groups[i].name, rg.name)
}

/// The public view is the faithful view of some stored normal group of
/// the tenant.
pub open spec fn tenant_normal_group_matches(
    groups: Seq<GroupRow>,
    tenant_id: u64,
    g: Group,
) -> bool {
    exists|i: int|
        0 <= i < groups.len() && (#[trigger] groups[i]).tenant_id == tenant_id
            && groups[i].group_type is Normal && groups[i].group_ref == g.group_ref && (
        groups[i].name matches Some(n) && n@ == g.name@)
}

/// `r` lists exactly the internal keys of the tenant's groups of the
/// given type.
pub open spec fn lists_tenant_group_ids(
    groups: Seq<GroupRow>,
    tenant_id: u64,
    group_type: GroupType,
    r: Seq<u64>,
) -> bool {
    &&& forall|k: int|
        0 <= k < r.len() ==> tenant_group_with_id(groups, tenant_id, group_type, #[trigger] r[k])
    &&& forall|i: int|
        0 <= i < groups.len() && (#[trigger] groups[i]).tenant_id == tenant_id
            && groups[i].group_type == group_type ==> r.contains(groups[i].id)
}

/// `r` lists exactly the external references of the tenant's groups of
/// the given type.
pub open spec fn lists_tenant_group_refs(
    groups: Seq<GroupRow>,
    tenant_id: u64,
    group_type: GroupType,
    r: Seq<GroupRef>,
) -> bool {
    &&& forall|k: int|
        0 <= k < r.len() ==> tenant_group_with_ref(groups, tenant_id, group_type, #[trigger] r[k])
    &&& forall|i: int|
        0 <= i < groups.len() && (#[trigger] groups[i]).tenant_id == tenant_id
            && groups[i].group_type == group_type ==> r.contains(groups[i].group_ref)
}

/// `r` lists exactly the tenant's groups of the given type, as raw
/// groups carrying the tenant's external reference.
pub open spec fn lists_tenant_groups(
    groups: Seq<GroupRow>,
    tenant_id: u64,
    group_type: GroupType,
    tenant_ref: TenantRef,
    r: Seq<RawGroup>,
) -> bool {
    &&& forall|k: int|
        0 <= k < r.len() ==> (#[trigger] r[k]).tenant == tenant_ref && r[k].group_type
            == group_type && tenant_raw_group_matches(groups, tenant_id, group_type, r[k])
    &&& forall|i: int|
        0 <= i < groups.len() && (#[trigger] groups[i]).tenant_id == tenant_id
            && groups[i].group_type == group_type ==> exists|k: int|
            0 <= k < r.len() && (#[trigger] r[k]).group_ref == groups[i].group_ref
}

/// `r` lists exactly the tenant's normal groups, as public views.
pub open spec fn lists_tenant_normal_groups(
    groups: Seq<GroupRow>,
    tenant_id: u64,
    tenant_ref: TenantRef,
    r: Seq<Group>,
) -> bool {
    &&& forall|k: int|
        0 <= k < r.len() ==> (#[trigger] r[k]).tenant == tenant_ref
            && tenant_normal_group_matches(groups, tenant_id, r[k])
    &&& forall|i: int|
        0 <= i < groups.len() && (#[trigger] groups[i]).tenant_id == tenant_id
            && groups[i].group_type is Normal ==> exists|k: int|
            0 <= k < r.len() && (#[trigger] r[k]).group_ref == groups[i].group_ref
    &&& forall|k1: int, k2: int|
        0 <= k1 < k2 < r.len() ==> (#[trigger] r[k1]).group_ref != (#[trigger] r[k2]).group_ref
}

/// Internal keys of the tenant's groups of the given type.
pub fn get_tenant_group_ids(tenant_id: u64, group_type: GroupType, db: &AuthDb) -> (r: Vec<u64>)
    ensures
        lists_tenant_group_ids(db.groups@, tenant_id, group_type, r@),
{
    let mut out: Vec<u64> = Vec::new();
    let ghost mut wit: Seq<int> = Seq::empty();
    let mut i: usize = 0;
    #[verifier::loop_isolation(false)]
    while i < db.groups.len()
        invariant
            i <= db.groups@.len(),
            wit.len() == out@.len(),
            forall|k: int|
                0 <= k < out@.len() ==> 0 <= #[trigger] wit[k] < db.groups@.len()
                    && db.groups@[wit[k]].tenant_id == tenant_id && db.groups@[wit[k]].group_type
                    == group_type && db.groups@[wit[k]].id == out@[k],
            forall|w: int|
                0 <= w < i && (#[trigger] db.groups@[w]).tenant_id == tenant_id
                    && db.groups@[w].group_type == group_type ==> out@.contains(db.groups@[w].id),
        decreases db.groups@.len() - i,
    {
        let ghost out0 = out@;
        if db.groups[i].tenant_id == tenant_id && db.groups[i].group_type == group_type {
            out.push(db.groups[i].id);
            proof {
                wit = wit.push(i as int);
            }
        }
        proof {
            assert forall|w: int|
                0 <= w < i + 1 && (#[trigger] db.groups@[w]).tenant_id == tenant_id
                    && db.groups@[w].group_type == group_type implies out@.contains(
                db.groups@[w].id,
            ) by {
                if w < i {
                    let k = choose|k: int| 0 <= k < out0.len() && out0[k] == db.groups@[w].id;
                    assert(out@[k] == db.groups@[w].id);
                } else {
                    assert(out@[out@.len() - 1] == db.groups@[w].id);
                }
            }
        }
        i += 1;
    }
    proof {
        assert forall|k: int| 0 <= k < out@.len() implies tenant_group_with_id(
            db.groups@,
            tenant_id,
            group_type,
            #[trigger] out@[k],
        ) by {
            assert(db.groups@[wit[k]].tenant_id == tenant_id && db.groups@[wit[k]].group_type
                == group_type && db.groups@[wit[k]].id == out@[k]);
        }
        assert(lists_tenant_group_ids(db.groups@, tenant_id, group_type, out@));
    }
    out
}

/// External references of the tenant's groups of the given type.
pub fn get_tenant_group_refs(tenant_id: u64, group_type: GroupType, db: &AuthDb) -> (r: Vec<
    GroupRef,
>)
    ensures
        lists_tenant_group_refs(db.groups@, tenant_id, group_type, r@),
{
    let mut out: Vec<GroupRef> = Vec::new();
    let ghost mut wit: Seq<int> = Seq::empty();
    let mut i: usize = 0;
    #[verifier::loop_isolation(false)]
    while i < db.groups.len()
        invariant
            i <= db.groups@.len(),
            wit.len() == out@.len(),
            forall|k: int|
                0 <= k < out@.len() ==> 0 <= #[trigger] wit[k] < db.groups@.len()
                    && db.groups@[wit[k]].tenant_id == tenant_id && db.groups@[wit[k]].group_type
                    == group_type && db.groups@[wit[k]].group_ref == out@[k],
            forall|w: int|
                0 <= w < i && (#[trigger] db.groups@[w]).tenant_id == tenant_id
                    && db.groups@[w].group_type == group_type ==> out@.contains(
                    db.groups@[w].group_ref,
                ),
        decreases db.groups@.len() - i,
    {
        let ghost out0 = out@;
        if db.groups[i].tenant_id == tenant_id && db.groups[i].group_type == group_type {
            out.push(db.groups[i].group_ref);
            proof {
                wit = wit.push(i as int);
            }
        }
        proof {
            assert forall|w: int|
                0 <= w < i + 1 && (#[trigger] db.groups@[w]).tenant_id == tenant_id
                    && db.groups@[w].group_type == group_type implies out@.contains(
                db.groups@[w].group_ref,
            ) by {
                if w < i {
                    let k = choose|k: int|
                        0 <= k < out0.len() && out0[k] == db.groups@[w].group_ref;
                    assert(out@[k] == db.groups@[w].group_ref);
                } else {
                    assert(out@[out@.len() - 1] == db.groups@[w].group_ref);
                }
            }
        }
        i += 1;
    }
    proof {
        assert forall|k: int| 0 <= k < out@.len() implies tenant_group_with_ref(
            db.groups@,
            tenant_id,
            group_type,
            #[trigger] out@[k],
        ) by {
            assert(db.groups@[wit[k]].tenant_id == tenant_id && db.groups@[wit[k]].group_type
                == group_type && db.groups@[wit[k]].group_ref == out@[k]);
        }
        assert(lists_tenant_group_refs(db.groups@, tenant_id, group_type, out@));
    }
    out
}

/// The tenant's groups of the given type, as raw groups carrying the
/// tenant's external reference.
pub fn get_tenant_groups(
    tenant_id: u64,
    group_type: GroupType,
    tenant_ref: &TenantRef,
    db: &AuthDb,
) -> (r: Vec<RawGroup>)
    ensures
        lists_tenant_groups(db.groups@, tenant_id, group_type, *tenant_ref, r@),
{
    let mut out: Vec<RawGroup> = Vec::new();
    let ghost mut wit: Seq<int> = Seq::empty();
    let mut i: usize = 0;
    #[verifier::loop_isolation(false)]
    while i < db.groups.len()
        invariant
            i <= db.groups@.len(),
            wit.len() == out@.len(),
            forall|k: int|
                0 <= k < out@.len() ==> 0 <= #[trigger] wit[k] < db.groups@.len()
                    && db.groups@[wit[k]].tenant_id == tenant_id && db.groups@[wit[k]].group_type
                    == group_type && db.groups@[wit[k]].group_ref == out@[k].group_ref
                    && crate::users::structures::spec_opt_string_eq(
                    db.groups@[wit[k]].name,
                    out@[k].name,
                ) && out@[k].tenant == *tenant_ref && out@[k].group_type == group_type,
            forall|w: int|
                0 <= w < i && (#[trigger] db.groups@[w]).tenant_id == tenant_id
                    && db.groups@[w].group_type == group_type ==> exists|k: int|
                    0 <= k < out@.len() && (#[trigger] out@[k]).group_ref
                        == db.groups@[w].group_ref,
        decreases db.groups@.len() - i,
    {
        let ghost out0 = out@;
        if db.groups[i].tenant_id == tenant_id && db.groups[i].group_type == group_type {
            let name = match &db.groups[i].name {
                Some(n) => Some(n.clone()),
                None => None,
            };
            out.push(
                RawGroup {
                    group_ref: db.groups[i].group_ref,
                    group_type,
                    name,
                    tenant: tenant_ref.clone(),
                },
            );
            proof {
                wit = wit.push(i as int);
            }
        }
        proof {
            assert forall|w: int|
                0 <= w < i + 1 && (#[trigger] db.groups@[w]).tenant_id == tenant_id
                    && db.groups@[w].group_type == group_type implies exists|k: int|
                0 <= k < out@.len() && (#[trigger] out@[k]).group_ref
                    == db.groups@[w].group_ref by {
                if w < i {
                    let k = choose|k: int|
                        0 <= k < out0.len() && (#[trigger] out0[k]).group_ref
                            == db.groups@[w].group_ref;
                    assert(out@[k].group_ref == db.groups@[w].group_ref);
                } else {
                    assert(out@[out@.len() - 1].group_ref == db.groups@[w].group_ref);
                }
            }
        }
        i += 1;
    }
    proof {
        assert forall|k: int| 0 <= k < out@.len() implies (#[trigger] out@[k]).tenant
            == *tenant_ref && out@[k].group_type == group_type && tenant_raw_group_matches(
            db.groups@,
            tenant_id,
            group_type,
            out@[k],
        ) by {
            assert(db.groups@[wit[k]].tenant_id == tenant_id && db.groups@[wit[k]].group_type
                == group_type && db.groups@[wit[k]].group_ref == out@[k].group_ref
                && crate::users::structures::spec_opt_string_eq(
                db.groups@[wit[k]].name,
                out@[k].name,
            ));
        }
        assert(lists_tenant_groups(db.groups@, tenant_id, group_type, *tenant_ref, out@));
    }
    out
}

/// The tenant's user-visible groups: the normal ones, as public views.
pub fn get_tenant_non_special_groups(tenant_id: u64, tenant_ref: &TenantRef, db: &AuthDb) -> (r:
    Vec<Group>)
    requires
        db.wf(),
    ensures
        lists_tenant_normal_groups(db.groups@, tenant_id, *tenant_ref, r@),
{
    let mut out: Vec<Group> = Vec::new();
    let ghost mut wit: Seq<int> = Seq::empty();
    let mut i: usize = 0;
    #[verifier::loop_isolation(false)]
    while i < db.groups.len()
        invariant
            i <= db.groups@.len(),
            wit.len() == out@.len(),
            forall|k: int|
                0 <= k < out@.len() ==> 0 <= #[trigger] wit[k] < i
                    && db.groups@[wit[k]].tenant_id == tenant_id && db.groups@[wit[k]].group_type
                    is Normal && db.groups@[wit[k]].group_ref == out@[k].group_ref && (
                db.groups@[wit[k]].name matches Some(n) && n@ == out@[k].name@) && out@[k].tenant
                    == *tenant_ref,
            forall|k1: int, k2: int| 0 <= k1 < k2 < out@.len() ==> wit[k1] < wit[k2],
            forall|w: int|
                0 <= w < i && (#[trigger] db.groups@[w]).tenant_id == tenant_id
                    && db.groups@[w].group_type is Normal ==> exists|k: int|
                    0 <= k < out@.len() && (#[trigger] out@[k]).group_ref
                        == db.groups@[w].group_ref,
        decreases db.groups@.len() - i,
    {
        let ghost out0 = out@;
        if db.groups[i].tenant_id == tenant_id && db.groups[i].group_type == GroupType::Normal {
            let name = match &db.groups[i].name {
                Some(n) => n.clone(),
                None => {
                    proof {
                        assert(false);
                    }
                    String::new()
                },
            };
            out.push(
                Group { group_ref: db.groups[i].group_ref, name, tenant: tenant_ref.clone() },
            );
            proof {
                wit = wit.push(i as int);
            }
        }
        proof {
            assert forall|w: int|
                0 <= w < i + 1 && (#[trigger] db.groups@[w]).tenant_id == tenant_id
                    && db.groups@[w].group_type is Normal implies exists|k: int|
                0 <= k < out@.len() && (#[trigger] out@[k]).group_ref
                    == db.groups@[w].group_ref by {
                if w < i {
                    let k = choose|k: int|
                        0 <= k < out0.len() && (#[trigger] out0[k]).group_ref
                            == db.groups@[w].group_ref;
                    assert(out@[k].group_ref == db.groups@[w].group_ref);
                } else {
                    assert(out@[out@.len() - 1].group_ref == db.groups@[w].group_ref);
                }
            }
        }
        i += 1;
    }
    proof {
        assert forall|k: int| 0 <= k < out@.len() implies (#[trigger] out@[k]).tenant
            == *tenant_ref && tenant_normal_group_matches(db.groups@, tenant_id, out@[k]) by {
            assert(db.groups@[wit[k]].tenant_id == tenant_id && db.groups@[wit[k]].group_type
                is Normal && db.groups@[wit[k]].group_ref == out@[k].group_ref && (
            db.groups@[wit[k]].name matches Some(n) && n@ == out@[k].name@));
        }
        assert forall|k1: int, k2: int| 0 <= k1 < k2 < out@.len() implies (
        #[trigger] out@[k1]).group_ref != (#[trigger] out@[k2]).group_ref by {
            assert(db.groups@[wit[k1]].group_ref != db.groups@[wit[k2]].group_ref);
        }
        assert(lists_tenant_normal_groups(db.groups@, tenant_id, *tenant_ref, out@));
    }
    out
}

/// The tenant's public view; the key must name a stored tenant.
pub fn get_tenant(id: u64, db: &AuthDb) -> (r: Tenant)
    requires
        db.spec_tenant_id_exists(id),
    ensures
        exists|i: int|
            0 <= i < db.tenants@.len() && (#[trigger] db.tenants@[i]).id == id
                && db.tenants@[i].tenant_ref == r.tenant_ref && db.tenants@[i].name@ == r.name@,
{
    let i = match db.find_tenant_by_id(id) {
        Some(i) => i,
        None => {
            proof {
                let w = choose|w: int| 0 <= w < db.tenants@.len() && db.tenants@[w].id == id;
                assert(false);
            }
            0
        },
    };
    Tenant { tenant_ref: db.tenants[i].tenant_ref, name: db.tenants[i].name.clone() }
}

/// Internal key of the tenant's one supergroup.  On a well-formed store
/// this succeeds for every stored tenant.
pub fn get_tenant_supergroup(id: u64, db: &AuthDb) -> (r: Result<u64, UserAuthError>)
    ensures
        match r {
            Ok(gid) => exists|i: int|
                0 <= i < db.groups@.len() && (#[trigger] db.groups@[i]).tenant_id == id
                    && db.groups@[i].group_type is SuperGroup && db.groups@[i].id == gid,
            Err(e) => !group_of_type_in(db.groups@, id, GroupType::SuperGroup) && (e matches
                UserAuthError::TenantEndpoint(te) && te matches TenantEndpointError::SupergroupNotFound(t)
                && t == id),
        },
        db.wf() && db.spec_tenant_id_exists(id) ==> r is Ok,
{
    proof {
        if db.wf() && db.spec_tenant_id_exists(id) {
            let w = choose|w: int| 0 <= w < db.tenants@.len() && db.tenants@[w].id == id;
            assert(crate::store::unique_group_of_type(db.groups@, id, GroupType::SuperGroup));
        }
    }
    match db.find_group_of_type(id, GroupType::SuperGroup) {
        Some(i) => Ok(db.groups[i].id),
        None => Err(
            UserAuthError::TenantEndpoint(TenantEndpointError::SupergroupNotFound(id)),
        ),
    }
}

/// External reference of the tenant's one supergroup.
pub fn get_tenant_supergroup_ref(id: u64, db: &AuthDb) -> (r: Result<GroupRef, UserAuthError>)
    ensures
        match r {
            Ok(gr) => exists|i: int|
                0 <= i < db.groups@.len() && (#[trigger] db.groups@[i]).tenant_id == id
                    && db.groups@[i].group_type is SuperGroup && db.groups@[i].group_ref == gr,
            Err(e) => !group_of_type_in(db.groups@, id, GroupType::SuperGroup) && (e matches
                UserAuthError::TenantEndpoint(te) && te matches TenantEndpointError::SupergroupNotFound(t)
                && t == id),
        },
        db.wf() && db.spec_tenant_id_exists(id) ==> r is Ok,
{
    proof {
        if db.wf() && db.spec_tenant_id_exists(id) {
            let w = choose|w: int| 0 <= w < db.tenants@.len() && db.tenants@[w].id == id;
            assert(crate::store::unique_group_of_type(db.groups@, id, GroupType::SuperGroup));
        }
    }
    match db.find_group_of_type(id, GroupType::SuperGroup) {
        Some(i) => Ok(db.groups[i].group_ref),
        None => Err(
            UserAuthError::TenantEndpoint(TenantEndpointError::SupergroupNotFound(id)),
        ),
    }
}

/// Internal key of the tenant's one admingroup.
pub fn get_tenant_admingroup(id: u64, db: &AuthDb) -> (r: Result<u64, UserAuthError>)
    ensures
        match r {
            Ok(gid) => exists|i: int|
                0 <= i < db.groups@.len() && (#[trigger] db.groups@[i]).tenant_id == id
                    && db.groups@[i].group_type is AdminGroup && db.groups@[i].id == gid,
            Err(e) => !group_of_type_in(db.groups@, id, GroupType::AdminGroup) && (e matches
                UserAuthError::TenantEndpoint(te) && te matches TenantEndpointError::AdminGroupNotFound(t)
                && t == id),
        },
        db.wf() && db.spec_tenant_id_exists(id) ==> r is Ok,
{
    proof {
        if db.wf() && db.spec_tenant_id_exists(id) {
            let w = choose|w: int| 0 <= w < db.tenants@.len() && db.tenants@[w].id == id;
            assert(crate::store::unique_group_of_type(db.groups@, id, GroupType::AdminGroup));
        }
    }
    match db.find_group_of_type(id, GroupType::AdminGroup) {
        Some(i) => Ok(db.groups[i].id),
        None => Err(
            UserAuthError::TenantEndpoint(TenantEndpointError::AdminGroupNotFound(id)),
        ),
    }
}

/// External reference of the tenant's one admingroup.
pub fn get_tenant_admingroup_ref(id: u64, db: &AuthDb) -> (r: Result<GroupRef, UserAuthError>)
    ensures
        match r {
            Ok(gr) => exists|i: int|
                0 <= i < db.groups@.len() && (#[trigger] db.groups@[i]).tenant_id == id
                    && db.groups@[i].group_type is AdminGroup && db.groups@[i].group_ref == gr,
            Err(e) => !group_of_type_in(db.groups@, id, GroupType::AdminGroup) && (e matches
                UserAuthError::TenantEndpoint(te) && te matches TenantEndpointError::AdminGroupNotFound(t)
                && t == id),
        },
        db.wf() && db.spec_tenant_id_exists(id) ==> r is Ok,
{
    proof {
        if db.wf() && db.spec_tenant_id_exists(id) {
            let w = choose|w: int| 0 <= w < db.tenants@.len() && db.tenants@[w].id == id;
            assert(crate::store::unique_group_of_type(db.groups@, id, GroupType::AdminGroup));
        }
    }
    match db.find_group_of_type(id, GroupType::AdminGroup) {
        Some(i) => Ok(db.groups[i].group_ref),
        None => Err(
            UserAuthError::TenantEndpoint(TenantEndpointError::AdminGroupNotFound(id)),
        ),
    }
}

/// The active users that belong to the tenant: the members of its
/// supergroup.
pub fn get_tenant_users(id: u64, db: &AuthDb) -> (r: Result<Vec<User>, UserAuthError>)
    requires
        db.wf(),
    ensures
        db.spec_tenant_id_exists(id) ==> r is Ok,
        r matches Ok(users) ==> exists|g: int|
            0 <= g < db.groups@.len() && (#[trigger] db.groups@[g]).tenant_id == id
                && db.groups@[g].group_type is SuperGroup && crate::groups::internal::users_view_of_group(
                db,
                db.groups@[g].id,
                users@,
            ),
{
    let sg = get_tenant_supergroup(id, db)?;
    Ok(crate::groups::internal::get_users_in_group(sg, db))
}

/// The tenant's administrators: the members of its admingroup.
pub fn get_tenant_admins(id: u64, db: &AuthDb) -> (r: Result<Vec<User>, UserAuthError>)
    requires
        db.wf(),
    ensures
        db.spec_tenant_id_exists(id) ==> r is Ok,
        r matches Ok(users) ==> exists|g: int|
            0 <= g < db.groups@.len() && (#[trigger] db.groups@[g]).tenant_id == id
                && db.groups@[g].group_type is AdminGroup && crate::groups::internal::users_view_of_group(
                db,
                db.groups@[g].id,
                users@,
            ),
{
    let ag = get_tenant_admingroup(id, db)?;
    Ok(crate::groups::internal::get_users_in_group(ag, db))
}

/// The user with key `uid` sits in the tenant's group of the given type.
pub open spec fn member_of_group_of_type(
    db: &AuthDb,
    tenant_id: u64,
    uid: u64,
    gt: GroupType,
) -> bool {
    exists|g: int|
        0 <= g < db.groups@.len() && (#[trigger] db.groups@[g]).tenant_id == tenant_id
            && db.groups@[g].group_type == gt && db.memberships@.contains(
            Membership { user_id: uid, group_id: db.groups@[g].id },
        )
}

/// What a successful tenant creation leaves behind: the reference
/// resolves to the new tenant, and the chosen superuser is an active user
/// sitting in both of the tenant's system groups.
pub open spec fn tenant_bootstrap_ok(db: &AuthDb, tr: TenantRef, tid: u64, ur: UserRef) -> bool {
    &&& tenant_ref_resolves(db.tenants@, tr, tid)
    &&& exists|uid: u64|
        #[trigger] crate::store::active_user_ref_resolves(db.users@, ur, uid)
            && member_of_group_of_type(db, tid, uid, GroupType::SuperGroup)
            && member_of_group_of_type(db, tid, uid, GroupType::AdminGroup)
}

/// What a successful tenant creation leaves behind, in full: the
/// bootstrap facts, the name, the superuser tied to the payload — the
/// given reference, or a fresh row built from the given profile — and
/// exactly the two membership edges that put that one user into the two
/// fresh system groups.
pub open spec fn tenant_created_ok(
    pre: &AuthDb,
    post: &AuthDb,
    tenant: &CreateTenant,
    hash_id: u16,
    tr: TenantRef,
    tid: u64,
    ur: UserRef,
) -> bool {
    &&& tenant_bootstrap_ok(post, tr, tid, ur)
    &&& !pre.spec_tenant_ref_exists(tr)
    &&& exists|t: int|
        0 <= t < post.tenants@.len() && (#[trigger] post.tenants@[t]).id == tid
            && post.tenants@[t].name@ == tenant.name@
    &&& (tenant.superuser_id matches Some(u0) ==> ur == u0 && post.users@ == pre.users@)
    &&& (tenant.superuser_id is None ==> (tenant.superuser matches Some(p)
        ==> !pre.spec_active_username_exists(p.username@) && post.users@.len() == pre.users@.len()
            + 1 && (forall|j: int|
            0 <= j < pre.users@.len() ==> #[trigger] post.users@[j] == pre.users@[j])
            && crate::users::internal::created_user_row_ok(
            post.users@[pre.users@.len() as int],
            p,
            hash_id,
            pre.next_user_id,
        ) && post.users@[pre.users@.len() as int].user_ref == ur))
    &&& post.groups@.len() == pre.groups@.len() + 2
    &&& (forall|j: int| 0 <= j < pre.groups@.len() ==> #[trigger] post.groups@[j] == pre.groups@[j])
    &&& exists|uid: u64, sgid: u64, agid: u64|
        #[trigger] crate::store::active_user_ref_resolves(post.users@, ur, uid)
            && post.memberships@ == pre.memberships@.push(
            Membership { user_id: uid, group_id: sgid },
        ).push(Membership { user_id: uid, group_id: agid }) && #[trigger] tenant_group_with_id(
            post.groups@,
            tid,
            GroupType::SuperGroup,
            sgid,
        ) && #[trigger] tenant_group_with_id(post.groups@, tid, GroupType::AdminGroup, agid)
}

/// Create a tenant together with its supergroup and admingroup, and make
/// the chosen superuser — an existing user or a freshly created one — a
/// member of both, as one transaction: any failure leaves the store's
/// relations unchanged.  Exactly one of the payload's `superuser` and
/// `superuser_id` must be supplied.
#[verifier::rlimit(100)]
pub fn create_tenant(tenant: CreateTenant, hash_id: u16, db: &mut AuthDb) -> (r: Result<
    (TenantRef, u64, UserRef),
    UserAuthError,
>)
    requires
        old(db).wf(),
        old(db).next_tenant_id < u64::MAX,
        old(db).next_group_id < u64::MAX - 1,
        old(db).next_user_id < u64::MAX,
    ensures
        final(db).wf(),
        r is Err ==> final(db).same_data(old(db)),
        (tenant.superuser is Some <==> tenant.superuser_id is Some) ==> (r matches Err(e)
            && e matches UserAuthError::TenantEndpoint(te) && te matches
            TenantEndpointError::Creation(c) && c is MissingSuperuser),
        match r {
            Ok((tr, tid, ur)) => tenant_created_ok(
                old(db),
                final(db),
                &tenant,
                hash_id,
                tr,
                tid,
                ur,
            ),
            Err(e) => (e matches UserAuthError::TenantEndpoint(te) ==> ((te matches
                TenantEndpointError::Creation(c) && c is MissingSuperuser) || te
                is ReferenceExhausted)) && (e matches UserAuthError::UserEndpoint(ue) ==> (ue
                is UserNonExistent || ue is UsernameTaken || ue matches
                crate::users::error::UserEndpointError::Hashing(_) || ue is ReferenceExhausted)),
        },
{
    if tenant.superuser.is_none() && tenant.superuser_id.is_none() {
        return Err(
            UserAuthError::TenantEndpoint(
                TenantEndpointError::Creation(crate::tenants::error::CreationError::MissingSuperuser),
            ),
        );
    }
    if tenant.superuser.is_some() && tenant.superuser_id.is_some() {
        return Err(
            UserAuthError::TenantEndpoint(
                TenantEndpointError::Creation(crate::tenants::error::CreationError::MissingSuperuser),
            ),
        );
    }
    let tenant_ref = match crate::refgen::gen_unique_tenant_ref(db) {
        Some(t) => t,
        None => {
            return Err(
                UserAuthError::TenantEndpoint(TenantEndpointError::ReferenceExhausted),
            );
        },
    };
    let supergroup_ref = match crate::refgen::gen_unique_group_ref(db) {
        Some(g) => g,
        None => {
            return Err(
                UserAuthError::TenantEndpoint(TenantEndpointError::ReferenceExhausted),
            );
        },
    };
    let admingroup_ref = match crate::refgen::gen_unique_group_ref(db) {
        Some(g) => g,
        None => {
            return Err(
                UserAuthError::TenantEndpoint(TenantEndpointError::ReferenceExhausted),
            );
        },
    };
    if supergroup_ref == admingroup_ref {
        return Err(UserAuthError::TenantEndpoint(TenantEndpointError::ReferenceExhausted));
    }
    // Resolve or create the superuser first: it is the only fallible step,
    // so nothing needs rolling back afterwards.
    let (superuser_ref, superuser_id) = match tenant.superuser_id {
        Some(user_ref) => {
            let uid = crate::users::internal::decode_user_ref(db, user_ref)?;
            (user_ref, uid)
        },
        None => {
            let payload = match tenant.superuser {
                Some(p) => p,
                None => {
                    proof {
                        assert(false);
                    }
                    return Err(
                        UserAuthError::TenantEndpoint(
                            TenantEndpointError::Creation(
                                crate::tenants::error::CreationError::MissingSuperuser,
                            ),
                        ),
                    );
                },
            };
            let (view, uid) = crate::users::internal::create_user(payload, hash_id, db)?;
            (view.user_ref, uid)
        },
    };
    let ghost mid = *db;
    proof {
        assert(crate::store::active_user_ref_resolves(db.users@, superuser_ref, superuser_id));
        assert(db.spec_user_id_exists(superuser_id)) by {
            let w = choose|w: int|
                0 <= w < db.users@.len() && (#[trigger] db.users@[w]).is_active()
                    && db.users@[w].user_ref == superuser_ref && db.users@[w].id == superuser_id;
        }
    }
    let (tid, sgid, agid) = db.create_tenant_with_groups(
        tenant_ref,
        tenant.name,
        supergroup_ref,
        admingroup_ref,
    );
    proof {
        assert(db.spec_group_id_exists(sgid)) by {
            assert(db.groups@[mid.groups@.len() as int].id == sgid);
        }
        assert(db.spec_group_id_exists(agid)) by {
            assert(db.groups@[mid.groups@.len() as int + 1].id == agid);
        }
        // The fresh groups cannot already carry membership edges: every
        // stored edge names a group key below the fresh ones.
        assert(!db.spec_has_membership(superuser_id, sgid)) by {
            if db.memberships@.contains(Membership { user_id: superuser_id, group_id: sgid }) {
                let k = choose|k: int|
                    0 <= k < db.memberships@.len() && db.memberships@[k] == (Membership {
                        user_id: superuser_id,
                        group_id: sgid,
                    });
                assert(crate::store::group_id_in(mid.groups@, sgid));
                let w = choose|w: int|
                    0 <= w < mid.groups@.len() && (#[trigger] mid.groups@[w]).id == sgid;
            }
        }
    }
    db.insert_membership(superuser_id, sgid);
    proof {
        assert(!db.spec_has_membership(superuser_id, agid)) by {
            if db.memberships@.contains(Membership { user_id: superuser_id, group_id: agid }) {
                let k = choose|k: int|
                    0 <= k < db.memberships@.len() && db.memberships@[k] == (Membership {
                        user_id: superuser_id,
                        group_id: agid,
                    });
                if k < db.memberships@.len() - 1 {
                    assert(mid.memberships@[k] == (Membership {
                        user_id: superuser_id,
                        group_id: agid,
                    }));
                    assert(crate::store::group_id_in(mid.groups@, agid));
                    let w = choose|w: int|
                        0 <= w < mid.groups@.len() && (#[trigger] mid.groups@[w]).id == agid;
                }
            }
        }
    }
    db.insert_membership(superuser_id, agid);
    proof {
        let glen = mid.groups@.len() as int;
        assert(db.groups@[glen].tenant_id == tid && db.groups@[glen].group_type
            == GroupType::SuperGroup && db.groups@[glen].id == sgid);
        assert(db.groups@[glen + 1].tenant_id == tid && db.groups@[glen + 1].group_type
            == GroupType::AdminGroup && db.groups@[glen + 1].id == agid);
        assert(db.memberships@[db.memberships@.len() - 2] == (Membership {
            user_id: superuser_id,
            group_id: sgid,
        }));
        assert(db.memberships@[db.memberships@.len() - 1] == (Membership {
            user_id: superuser_id,
            group_id: agid,
        }));
        assert(db.tenants@[db.tenants@.len() - 1].tenant_ref == tenant_ref
            && db.tenants@[db.tenants@.len() - 1].id == tid);
        assert(crate::store::active_user_ref_resolves(db.users@, superuser_ref, superuser_id))
            by {
            let w = choose|w: int|
                0 <= w < mid.users@.len() && (#[trigger] mid.users@[w]).is_active()
                    && mid.users@[w].user_ref == superuser_ref && mid.users@[w].id
                    == superuser_id;
            assert(db.users@[w] == mid.users@[w]);
        }
        assert(tenant_bootstrap_ok(db, tenant_ref, tid, superuser_ref));
        assert(db.memberships@ == old(db).memberships@.push(
            Membership { user_id: superuser_id, group_id: sgid },
        ).push(Membership { user_id: superuser_id, group_id: agid }));
        assert(tenant_group_with_id(db.groups@, tid, GroupType::SuperGroup, sgid));
        assert(tenant_group_with_id(db.groups@, tid, GroupType::AdminGroup, agid));
        assert(tenant_created_ok(
            old(db),
            db,
            &tenant,
            hash_id,
            tenant_ref,
            tid,
            superuser_ref,
        ));
    }
    Ok((tenant_ref, tid, superuser_ref))
}

/// External references of every tenant the user belongs to.
#[verifier::rlimit(100)]
pub fn get_user_tenant_refs(user_id: u64, db: &AuthDb) -> (r: Vec<TenantRef>)
    requires
        db.wf(),
    ensures
        forall|k: int|
            0 <= k < r@.len() ==> user_in_tenant(
                db.tenants@,
                db.groups@,
                db.memberships@,
                user_id,
                #[trigger] r@[k],
            ),
        forall|tr: TenantRef|
            user_in_tenant(db.tenants@, db.groups@, db.memberships@, user_id, tr)
                ==> r@.contains(tr),
        forall|k1: int, k2: int| 0 <= k1 < k2 < r@.len() ==> r@[k1] != r@[k2],
{
    let mut out: Vec<TenantRef> = Vec::new();
    let ghost mut witg: Seq<int> = Seq::empty();
    let ghost mut witt: Seq<int> = Seq::empty();
    let mut g: usize = 0;
    #[verifier::loop_isolation(false)]
    while g < db.groups.len()
        invariant
            g <= db.groups@.len(),
            witg.len() == out@.len(),
            witt.len() == out@.len(),
            forall|k: int|
                0 <= k < out@.len() ==> 0 <= #[trigger] witg[k] < g && 0 <= witt[k]
                    < db.tenants@.len() && db.groups@[witg[k]].group_type is SuperGroup
                    && db.tenants@[witt[k]].id == db.groups@[witg[k]].tenant_id
                    && db.tenants@[witt[k]].tenant_ref == out@[k] && db.memberships@.contains(
                    Membership { user_id, group_id: db.groups@[witg[k]].id },
                ),
            forall|k1: int, k2: int| 0 <= k1 < k2 < out@.len() ==> witg[k1] < witg[k2],
            forall|k: int|
                0 <= k < out@.len() ==> user_in_tenant(
                    db.tenants@,
                    db.groups@,
                    db.memberships@,
                    user_id,
                    #[trigger] out@[k],
                ),
            forall|w: int, t: int|
                0 <= w < g && 0 <= t < db.tenants@.len() && (#[trigger] db.groups@[w]).group_type
                    is SuperGroup && (#[trigger] db.tenants@[t]).id == db.groups@[w].tenant_id
                    && db.memberships@.contains(
                    Membership { user_id, group_id: db.groups@[w].id },
                ) ==> out@.contains(db.tenants@[t].tenant_ref),
        decreases db.groups@.len() - g,
    {
        let ghost out0 = out@;
        let is_super = db.groups[g].group_type == GroupType::SuperGroup;
        let mut added: bool = false;
        if is_super && db.has_membership(user_id, db.groups[g].id) {
            match db.find_tenant_by_id(db.groups[g].tenant_id) {
                Some(t) => {
                    out.push(db.tenants[t].tenant_ref);
                    proof {
                        witg = witg.push(g as int);
                        witt = witt.push(t as int);
                        assert(user_in_tenant(
                            db.tenants@,
                            db.groups@,
                            db.memberships@,
                            user_id,
                            db.tenants@[t as int].tenant_ref,
                        )) by {
                            assert(db.groups@[g as int].group_type is SuperGroup
                                && db.tenants@[t as int].id == db.groups@[g as int].tenant_id
                                && db.memberships@.contains(
                                Membership { user_id, group_id: db.groups@[g as int].id },
                            ));
                        }
                    }
                    added = true;
                },
                None => (),
            }
        }
        proof {
            assert forall|w: int, t: int|
                0 <= w < g + 1 && 0 <= t < db.tenants@.len() && (
            #[trigger] db.groups@[w]).group_type is SuperGroup && (#[trigger] db.tenants@[t]).id
                == db.groups@[w].tenant_id && db.memberships@.contains(
                Membership { user_id, group_id: db.groups@[w].id },
            ) implies out@.contains(db.tenants@[t].tenant_ref) by {
                if w < g {
                    let k = choose|k: int|
                        0 <= k < out0.len() && out0[k] == db.tenants@[t].tenant_ref;
                    assert(out@[k] == db.tenants@[t].tenant_ref);
                } else {
                    assert(out@[out@.len() - 1] == db.tenants@[t].tenant_ref);
                }
            }
        }
        g += 1;
    }
    proof {
        assert forall|tr: TenantRef|
            user_in_tenant(db.tenants@, db.groups@, db.memberships@, user_id, tr) implies
            out@.contains(tr) by {
            let (w, t): (int, int) = choose|w: int, t: int|
                0 <= w < db.groups@.len() && 0 <= t < db.tenants@.len() && (
                #[trigger] db.groups@[w]).group_type is SuperGroup && (
                #[trigger] db.tenants@[t]).id == db.groups@[w].tenant_id
                    && db.tenants@[t].tenant_ref == tr && db.memberships@.contains(
                    Membership { user_id, group_id: db.groups@[w].id },
                );
        }
        // One entry per tenant: a tenant reference names one tenant, a
        // tenant owns one supergroup, and the source groups are distinct.
        assert forall|k1: int, k2: int| 0 <= k1 < k2 < out@.len() implies out@[k1]
            != out@[k2] by {
            let g1 = witg[k1];
            let g2 = witg[k2];
            let t1 = witt[k1];
            let t2 = witt[k2];
            assert(0 <= g1 < db.groups@.len() && db.groups@[g1].group_type is SuperGroup && 0 <= t1
                < db.tenants@.len() && db.tenants@[t1].id == db.groups@[g1].tenant_id
                && db.tenants@[t1].tenant_ref == out@[k1]);
            assert(0 <= g2 < db.groups@.len() && db.groups@[g2].group_type is SuperGroup && 0 <= t2
                < db.tenants@.len() && db.tenants@[t2].id == db.groups@[g2].tenant_id
                && db.tenants@[t2].tenant_ref == out@[k2]);
            if out@[k1] == out@[k2] {
                if t1 != t2 {
                    assert(db.tenants@[t1].tenant_ref != db.tenants@[t2].tenant_ref);
                }
                assert(crate::store::unique_group_of_type(
                    db.groups@,
                    db.tenants@[t1].id,
                    GroupType::SuperGroup,
                ));
                assert(g1 == g2);
            }
        }
    }
    out
}

} // verus!
