//! Mutating store operations.  Each operation stands for one transaction:
//! it either applies completely, re-establishing the store invariant, or —
//! for the fallible compositions built on top of these — leaves the store
//! untouched.

use vstd::prelude::*;
use crate::entities::{GroupRef, TenantRef, UserRef};
use crate::groups::structures::GroupType;
use crate::store::{
    lemma_group_preds_extend, lemma_tenant_preds_extend, lemma_user_preds_extend, AuthDb, GroupRow,
    LifecycleStatus, Membership, TenantRow, UserRow,
};

verus! {

/// Removing one normal group row keeps the group relation well-formed,
/// keeps every tenant's supergroup/admingroup pairing, and keeps every
/// other group resolvable.
#[verifier::rlimit(80)]
proof fn lemma_groups_remove_wf(
    a: Seq<GroupRow>,
    tenants: Seq<TenantRow>,
    idx: int,
    next: u64,
)
    requires
        crate::store::groups_rows_wf(a, tenants, next),
        crate::store::special_groups_ok(tenants, a),
        0 <= idx < a.len(),
        a[idx].group_type is Normal,
    ensures
        crate::store::groups_rows_wf(a.remove(idx), tenants, next),
        crate::store::special_groups_ok(tenants, a.remove(idx)),
        forall|j: int|
            0 <= j < a.remove(idx).len() ==> #[trigger] a.remove(idx)[j] == (if j < idx {
                a[j]
            } else {
                a[j + 1]
            }),
        forall|j: int| 0 <= j < a.remove(idx).len() ==> (#[trigger] a.remove(idx)[j]).id
            != a[idx].id,
        forall|gid: u64|
            #[trigger] crate::store::group_id_in(a, gid) && gid != a[idx].id
                ==> crate::store::group_id_in(a.remove(idx), gid),
        forall|r: GroupRef, v: u64|
            #[trigger] crate::store::group_ref_resolves(a, r, v) && v != a[idx].id
                ==> crate::store::group_ref_resolves(a.remove(idx), r, v),
{
    let b = a.remove(idx);
    assert(forall|j: int|
        0 <= j < b.len() ==> #[trigger] b[j] == (if j < idx {
            a[j]
        } else {
            a[j + 1]
        }));
    assert forall|j: int| 0 <= j < b.len() implies (#[trigger] b[j]).id != a[idx].id by {
        let pj: int = if j < idx {
            j
        } else {
            j + 1
        };
        assert(a[pj].id != a[idx].id);
    }
    assert forall|i: int, j: int| 0 <= i < j < b.len() implies (#[trigger] b[i]).id != (
    #[trigger] b[j]).id && b[i].group_ref != b[j].group_ref by {
        let pi: int = if i < idx {
            i
        } else {
            i + 1
        };
        let pj: int = if j < idx {
            j
        } else {
            j + 1
        };
        assert(a[pi].id != a[pj].id && a[pi].group_ref != a[pj].group_ref);
    }
    assert forall|j: int| 0 <= j < b.len() implies crate::store::tenant_id_in(
        tenants,
        (#[trigger] b[j]).tenant_id,
    ) && b[j].id < next && (b[j].group_type is Normal ==> b[j].name is Some) by {
        let pj: int = if j < idx {
            j
        } else {
            j + 1
        };
        assert(b[j] == a[pj]);
        assert(crate::store::tenant_id_in(tenants, a[pj].tenant_id));
    }
    assert forall|gid: u64|
        #[trigger] crate::store::group_id_in(a, gid) && gid != a[idx].id
            implies crate::store::group_id_in(b, gid) by {
        let w = choose|w: int| 0 <= w < a.len() && (#[trigger] a[w]).id == gid;
        if w < idx {
            assert(b[w].id == gid);
        } else {
            assert(b[w - 1] == a[w]);
        }
    }
    assert forall|r: GroupRef, v: u64|
        #[trigger] crate::store::group_ref_resolves(a, r, v) && v != a[idx].id
            implies crate::store::group_ref_resolves(b, r, v) by {
        let w = choose|w: int| 0 <= w < a.len() && (#[trigger] a[w]).group_ref == r && a[w].id == v;
        if w < idx {
            assert(b[w].group_ref == r && b[w].id == v);
        } else {
            assert(b[w - 1] == a[w]);
        }
    }
    assert forall|t: int| 0 <= t < tenants.len() implies crate::store::unique_group_of_type(
        b,
        (#[trigger] tenants[t]).id,
        GroupType::SuperGroup,
    ) && crate::store::unique_group_of_type(b, tenants[t].id, GroupType::AdminGroup) by {
        let tid = tenants[t].id;
        assert(crate::store::unique_group_of_type(a, tid, GroupType::SuperGroup));
        assert(crate::store::unique_group_of_type(a, tid, GroupType::AdminGroup));
        let ws = choose|w: int|
            0 <= w < a.len() && (#[trigger] a[w]).tenant_id == tid && a[w].group_type
                == GroupType::SuperGroup;
        assert(ws != idx);
        if ws < idx {
            assert(b[ws].tenant_id == tid && b[ws].group_type == GroupType::SuperGroup);
        } else {
            assert(b[ws - 1] == a[ws]);
        }
        let wa = choose|w: int|
            0 <= w < a.len() && (#[trigger] a[w]).tenant_id == tid && a[w].group_type
                == GroupType::AdminGroup;
        assert(wa != idx);
        if wa < idx {
            assert(b[wa].tenant_id == tid && b[wa].group_type == GroupType::AdminGroup);
        } else {
            assert(b[wa - 1] == a[wa]);
        }
        assert forall|i: int, j: int|
            0 <= i < b.len() && 0 <= j < b.len() && (#[trigger] b[i]).tenant_id == tid && (
        #[trigger] b[j]).tenant_id == tid && b[i].group_type == GroupType::SuperGroup
            && b[j].group_type == GroupType::SuperGroup implies i == j by {
            let pi: int = if i < idx {
                i
            } else {
                i + 1
            };
            let pj: int = if j < idx {
                j
            } else {
                j + 1
            };
            assert(a[pi] == b[i] && a[pj] == b[j]);
        }
        assert forall|i: int, j: int|
            0 <= i < b.len() && 0 <= j < b.len() && (#[trigger] b[i]).tenant_id == tid && (
        #[trigger] b[j]).tenant_id == tid && b[i].group_type == GroupType::AdminGroup
            && b[j].group_type == GroupType::AdminGroup implies i == j by {
            let pi: int = if i < idx {
                i
            } else {
                i + 1
            };
            let pj: int = if j < idx {
                j
            } else {
                j + 1
            };
            assert(a[pi] == b[i] && a[pj] == b[j]);
        }
    }
}

/// After the group row is removed, the filtered memberships and the
/// invalidated cache are coherent with the shrunken relation.
#[verifier::rlimit(80)]
proof fn lemma_remove_group_rest(
    users: Seq<UserRow>,
    a: Seq<GroupRow>,
    idx: int,
    pre_ms: Seq<Membership>,
    ms: Seq<Membership>,
    cache0: crate::resolver::RefCache,
    cache1: crate::resolver::RefCache,
)
    requires
        0 <= idx < a.len(),
        crate::store::memberships_ok(pre_ms, users, a),
        forall|i: int, j: int| 0 <= i < j < ms.len() ==> (#[trigger] ms[i]) != (#[trigger] ms[j]),
        forall|m: Membership| #[trigger]
            ms.contains(m) ==> (pre_ms.contains(m) && m.group_id != a[idx].id),
        crate::store::group_cache_ok(cache0, a),
        cache1.entries_subset_of(&cache0),
        !cache1.spec_has_key(a[idx].group_ref.code),
        forall|i: int, j: int| 0 <= i < j < a.len() ==> (#[trigger] a[i]).id != (#[trigger] a[j]).id,
        forall|gid: u64|
            #[trigger] crate::store::group_id_in(a, gid) && gid != a[idx].id
                ==> crate::store::group_id_in(a.remove(idx), gid),
        forall|r: GroupRef, v: u64|
            #[trigger] crate::store::group_ref_resolves(a, r, v) && v != a[idx].id
                ==> crate::store::group_ref_resolves(a.remove(idx), r, v),
    ensures
        crate::store::memberships_ok(ms, users, a.remove(idx)),
        crate::store::group_cache_ok(cache1, a.remove(idx)),
{
    let b = a.remove(idx);
    assert forall|j: int| 0 <= j < ms.len() implies crate::store::user_id_in(
        users,
        (#[trigger] ms[j]).user_id,
    ) && crate::store::group_id_in(b, ms[j].group_id) by {
        assert(ms.contains(ms[j]));
        let m = ms[j];
        let k = choose|k: int| 0 <= k < pre_ms.len() && pre_ms[k] == m;
        assert(crate::store::user_id_in(users, pre_ms[k].user_id));
        assert(crate::store::group_id_in(a, pre_ms[k].group_id));
    }
    assert forall|k: int|
        0 <= k < cache1.entries@.len() implies crate::store::group_ref_resolves(
        b,
        GroupRef { code: (#[trigger] cache1.entries@[k]).key },
        cache1.entries@[k].val,
    ) by {
        let e = cache1.entries@[k];
        assert(cache0.spec_maps(e.key, e.val));
        let w0 = choose|w0: int|
            0 <= w0 < cache0.entries@.len() && cache0.entries@[w0]
                == (crate::resolver::CacheEntry { key: e.key, val: e.val });
        assert(crate::store::group_ref_resolves(a, GroupRef { code: e.key }, e.val));
        if e.val == a[idx].id {
            let u = choose|u: int|
                0 <= u < a.len() && (#[trigger] a[u]).group_ref == (GroupRef { code: e.key })
                    && a[u].id == e.val;
            assert(u == idx);
            assert(cache1.spec_has_key(a[idx].group_ref.code));
            assert(false);
        }
    }
}

/// Keep exactly the membership edges that do not touch the given group.
fn filter_out_group_memberships(ms: &Vec<Membership>, id: u64) -> (kept: Vec<Membership>)
    requires
        forall|i: int, j: int| 0 <= i < j < ms@.len() ==> (#[trigger] ms@[i]) != (#[trigger] ms@[j]),
    ensures
        forall|i: int, j: int|
            0 <= i < j < kept@.len() ==> (#[trigger] kept@[i]) != (#[trigger] kept@[j]),
        forall|m: Membership|
            #[trigger] kept@.contains(m) <==> (ms@.contains(m) && m.group_id != id),
{
    let mut kept: Vec<Membership> = Vec::new();
    let mut i: usize = 0;
    #[verifier::loop_isolation(false)]
    while i < ms.len()
        invariant
            i <= ms@.len(),
            forall|j: int| 0 <= j < kept@.len() ==> (#[trigger] kept@[j]).group_id != id,
            forall|j: int|
                0 <= j < kept@.len() ==> exists|k: int| 0 <= k < i && ms@[k] == #[trigger] kept@[j],
            forall|k: int|
                0 <= k < i && (#[trigger] ms@[k]).group_id != id ==> kept@.contains(ms@[k]),
            forall|j1: int, j2: int|
                0 <= j1 < j2 < kept@.len() ==> (#[trigger] kept@[j1]) != (#[trigger] kept@[j2]),
        decreases ms@.len() - i,
    {
        let m = ms[i];
        let ghost kept0 = kept@;
        if m.group_id != id {
            proof {
                assert forall|j: int| 0 <= j < kept@.len() implies (#[trigger] kept@[j]) != m by {
                    let k = choose|k: int| 0 <= k < i && ms@[k] == kept@[j];
                    assert(ms@[k] != ms@[i as int]);
                }
            }
            kept.push(m);
        }
        proof {
            assert forall|k: int|
                0 <= k <= i && (#[trigger] ms@[k]).group_id != id implies kept@.contains(
                ms@[k],
            ) by {
                if k == i {
                    assert(kept@[kept@.len() - 1] == ms@[i as int]);
                } else {
                    assert(kept0.contains(ms@[k]));
                    let j = choose|j: int| 0 <= j < kept0.len() && kept0[j] == ms@[k];
                    assert(kept@[j] == ms@[k]);
                }
            }
        }
        i += 1;
    }
    proof {
        assert forall|m: Membership| #[trigger]
            kept@.contains(m) implies (ms@.contains(m) && m.group_id != id) by {
            let j = choose|j: int| 0 <= j < kept@.len() && kept@[j] == m;
            let k = choose|k: int| 0 <= k < ms@.len() && ms@[k] == kept@[j];
            assert(ms@[k] == m);
        }
    }
    kept
}

impl AuthDb {
    /// Insert a fresh active user row and hand back its internal key.
    pub fn insert_user(
        &mut self,
        user_ref: UserRef,
        username: String,
        password: String,
        password_hash_id: u16,
        firstname: String,
        lastname: String,
        email: Option<String>,
        timezone: String,
        is_superuser: bool,
    ) -> (id: u64)
        requires
            old(self).wf(),
            old(self).next_user_id < u64::MAX,
            !old(self).spec_user_ref_exists(user_ref),
            !old(self).spec_active_username_exists(username@),
        ensures
            final(self).wf(),
            id == old(self).next_user_id,
            final(self).users@ == old(self).users@.push(
                UserRow {
                    id,
                    user_ref,
                    username,
                    password,
                    password_hash_id,
                    firstname,
                    lastname,
                    email,
                    timezone,
                    status: LifecycleStatus::Active,
                    is_superuser,
                },
            ),
            final(self).tenants@ == old(self).tenants@,
            final(self).groups@ == old(self).groups@,
            final(self).memberships@ == old(self).memberships@,
            final(self).next_user_id == old(self).next_user_id + 1,
            final(self).next_tenant_id == old(self).next_tenant_id,
            final(self).next_group_id == old(self).next_group_id,
            final(self).user_decode_cache == old(self).user_decode_cache,
            final(self).tenant_decode_cache == old(self).tenant_decode_cache,
            final(self).group_decode_cache == old(self).group_decode_cache,
            final(self).tenant_encode_cache == old(self).tenant_encode_cache,
    {
        let id = self.next_user_id;
        let row = UserRow {
            id,
            user_ref,
            username,
            password,
            password_hash_id,
            firstname,
            lastname,
            email,
            timezone,
            status: LifecycleStatus::Active,
            is_superuser,
        };
        self.users.push(row);
        self.next_user_id = id + 1;
        proof {
            lemma_user_preds_extend(old(self).users@, self.users@);
        }
        id
    }

    /// Insert the membership edge between an existing user and group; the
    /// edge must not already be present.
    pub fn insert_membership(&mut self, user_id: u64, group_id: u64)
        requires
            old(self).wf(),
            old(self).spec_user_id_exists(user_id),
            old(self).spec_group_id_exists(group_id),
            !old(self).spec_has_membership(user_id, group_id),
        ensures
            final(self).wf(),
            final(self).memberships@ == old(self).memberships@.push(
                Membership { user_id, group_id },
            ),
            final(self).users@ == old(self).users@,
            final(self).tenants@ == old(self).tenants@,
            final(self).groups@ == old(self).groups@,
            final(self).next_user_id == old(self).next_user_id,
            final(self).next_tenant_id == old(self).next_tenant_id,
            final(self).next_group_id == old(self).next_group_id,
            final(self).user_decode_cache == old(self).user_decode_cache,
            final(self).tenant_decode_cache == old(self).tenant_decode_cache,
            final(self).group_decode_cache == old(self).group_decode_cache,
            final(self).tenant_encode_cache == old(self).tenant_encode_cache,
    {
        self.memberships.push(Membership { user_id, group_id });
        proof {
            assert forall|i: int, j: int|
                0 <= i < j < self.memberships@.len() implies (#[trigger] self.memberships@[i]) != (
            #[trigger] self.memberships@[j]) by {
                if j == self.memberships@.len() - 1 {
                    assert(!old(self).memberships@.contains(Membership { user_id, group_id }));
                    assert(old(self).memberships@[i] != (Membership { user_id, group_id }));
                }
            }
        }
    }

    /// Insert a fresh tenant together with its supergroup and admingroup,
    /// as one transaction; a tenant without both system groups is never
    /// observable.  Returns the internal keys of the tenant, the
    /// supergroup and the admingroup.
    pub fn create_tenant_with_groups(
        &mut self,
        tenant_ref: TenantRef,
        name: String,
        supergroup_ref: GroupRef,
        admingroup_ref: GroupRef,
    ) -> (r: (u64, u64, u64))
        requires
            old(self).wf(),
            old(self).next_tenant_id < u64::MAX,
            old(self).next_group_id < u64::MAX - 1,
            !old(self).spec_tenant_ref_exists(tenant_ref),
            !old(self).spec_group_ref_exists(supergroup_ref),
            !old(self).spec_group_ref_exists(admingroup_ref),
            supergroup_ref != admingroup_ref,
        ensures
            final(self).wf(),
            r.0 == old(self).next_tenant_id,
            r.1 == old(self).next_group_id,
            r.2 == old(self).next_group_id + 1,
            final(self).tenants@ == old(self).tenants@.push(
                TenantRow { id: r.0, tenant_ref, name },
            ),
            final(self).groups@ == old(self).groups@.push(
                GroupRow {
                    id: r.1,
                    group_ref: supergroup_ref,
                    name: None,
                    group_type: GroupType::SuperGroup,
                    tenant_id: r.0,
                },
            ).push(
                GroupRow {
                    id: r.2,
                    group_ref: admingroup_ref,
                    name: None,
                    group_type: GroupType::AdminGroup,
                    tenant_id: r.0,
                },
            ),
            final(self).users@ == old(self).users@,
            final(self).memberships@ == old(self).memberships@,
            final(self).next_user_id == old(self).next_user_id,
            final(self).next_tenant_id == old(self).next_tenant_id + 1,
            final(self).next_group_id == old(self).next_group_id + 2,
            final(self).user_decode_cache == old(self).user_decode_cache,
            final(self).tenant_decode_cache == old(self).tenant_decode_cache,
            final(self).group_decode_cache == old(self).group_decode_cache,
            final(self).tenant_encode_cache == old(self).tenant_encode_cache,
    {
        let tid = self.next_tenant_id;
        let sgid = self.next_group_id;
        let agid = self.next_group_id + 1;
        self.tenants.push(TenantRow { id: tid, tenant_ref, name });
        self.groups.push(
            GroupRow {
                id: sgid,
                group_ref: supergroup_ref,
                name: None,
                group_type: GroupType::SuperGroup,
                tenant_id: tid,
            },
        );
        self.groups.push(
            GroupRow {
                id: agid,
                group_ref: admingroup_ref,
                name: None,
                group_type: GroupType::AdminGroup,
                tenant_id: tid,
            },
        );
        self.next_tenant_id = tid + 1;
        self.next_group_id = agid + 1;
        proof {
            let a_t = old(self).tenants@;
            let b_t = self.tenants@;
            let a_g = old(self).groups@;
            let b_g = self.groups@;
            lemma_tenant_preds_extend(a_t, b_t);
            lemma_group_preds_extend(a_g, b_g);
            // Old groups never reference the fresh tenant key, because their
            // owners all have smaller keys.
            assert forall|i: int| 0 <= i < a_g.len() implies (#[trigger] b_g[i]).tenant_id
                != tid by {
                let w = choose|w: int| 0 <= w < a_t.len() && a_t[w].id == a_g[i].tenant_id;
                assert(a_t[w].id < tid);
            }
            assert(b_g[a_g.len() as int].tenant_id == tid);
            assert(b_g[a_g.len() as int + 1].tenant_id == tid);
            assert forall|i: int| 0 <= i < b_g.len() implies crate::store::tenant_id_in(
                b_t,
                (#[trigger] b_g[i]).tenant_id,
            ) by {
                if i < a_g.len() {
                    assert(crate::store::tenant_id_in(a_t, a_g[i].tenant_id));
                } else {
                    assert(b_t[a_t.len() as int].id == tid);
                }
            }
            // The one-supergroup / one-admingroup pairing holds for every
            // old tenant (its groups are untouched, the new ones belong to
            // the new tenant) and for the new tenant (exactly the two rows
            // just pushed).
            assert forall|t: int| 0 <= t < b_t.len() implies crate::store::unique_group_of_type(
                b_g,
                (#[trigger] b_t[t]).id,
                GroupType::SuperGroup,
            ) && crate::store::unique_group_of_type(b_g, b_t[t].id, GroupType::AdminGroup) by {
                if t < a_t.len() {
                    assert(crate::store::unique_group_of_type(
                        a_g,
                        a_t[t].id,
                        GroupType::SuperGroup,
                    ));
                    assert(crate::store::unique_group_of_type(
                        a_g,
                        a_t[t].id,
                        GroupType::AdminGroup,
                    ));
                    assert(b_t[t].id != tid) by {
                        assert(a_t[t].id < tid);
                    }
                } else {
                    assert(b_t[t].id == tid);
                    assert(crate::store::group_of_type_in(b_g, tid, GroupType::SuperGroup)) by {
                        assert(b_g[a_g.len() as int].tenant_id == tid
                            && b_g[a_g.len() as int].group_type == GroupType::SuperGroup);
                    }
                    assert(crate::store::group_of_type_in(b_g, tid, GroupType::AdminGroup)) by {
                        assert(b_g[a_g.len() as int + 1].tenant_id == tid && b_g[a_g.len() as int
                            + 1].group_type == GroupType::AdminGroup);
                    }
                }
            }
        }
        (tid, sgid, agid)
    }

    /// Insert a fresh user-managed (normal) group under an existing
    /// tenant and hand back its internal key.
    pub fn insert_normal_group(&mut self, group_ref: GroupRef, name: String, tenant_id: u64) -> (id:
        u64)
        requires
            old(self).wf(),
            old(self).next_group_id < u64::MAX,
            old(self).spec_tenant_id_exists(tenant_id),
            !old(self).spec_group_ref_exists(group_ref),
        ensures
            final(self).wf(),
            id == old(self).next_group_id,
            final(self).groups@ == old(self).groups@.push(
                GroupRow {
                    id,
                    group_ref,
                    name: Some(name),
                    group_type: GroupType::Normal,
                    tenant_id,
                },
            ),
            final(self).users@ == old(self).users@,
            final(self).tenants@ == old(self).tenants@,
            final(self).memberships@ == old(self).memberships@,
            final(self).next_user_id == old(self).next_user_id,
            final(self).next_tenant_id == old(self).next_tenant_id,
            final(self).next_group_id == old(self).next_group_id + 1,
            final(self).user_decode_cache == old(self).user_decode_cache,
            final(self).tenant_decode_cache == old(self).tenant_decode_cache,
            final(self).group_decode_cache == old(self).group_decode_cache,
            final(self).tenant_encode_cache == old(self).tenant_encode_cache,
    {
        let id = self.next_group_id;
        self.groups.push(
            GroupRow { id, group_ref, name: Some(name), group_type: GroupType::Normal, tenant_id },
        );
        self.next_group_id = id + 1;
        proof {
            let a_g = old(self).groups@;
            let b_g = self.groups@;
            lemma_group_preds_extend(a_g, b_g);
            // A normal group never disturbs the unique supergroup /
            // admingroup pairing of any tenant.
            assert forall|t: int|
                0 <= t < self.tenants@.len() implies crate::store::unique_group_of_type(
                b_g,
                (#[trigger] self.tenants@[t]).id,
                GroupType::SuperGroup,
            ) && crate::store::unique_group_of_type(
                b_g,
                self.tenants@[t].id,
                GroupType::AdminGroup,
            ) by {
                assert(crate::store::unique_group_of_type(
                    a_g,
                    self.tenants@[t].id,
                    GroupType::SuperGroup,
                ));
                assert(crate::store::unique_group_of_type(
                    a_g,
                    self.tenants@[t].id,
                    GroupType::AdminGroup,
                ));
            }
        }
        id
    }

    /// Soft-delete a user: the row persists with status `Deleted`, and the
    /// stale decode translation is dropped from the resolver cache, so the
    /// reference stops resolving at once.
    pub fn mark_user_deleted(&mut self, id: u64)
        requires
            old(self).wf(),
            old(self).spec_user_id_exists(id),
        ensures
            final(self).wf(),
            final(self).users@.len() == old(self).users@.len(),
            forall|j: int|
                0 <= j < old(self).users@.len() ==> #[trigger] final(self).users@[j] == (if old(
                    self,
                ).users@[j].id == id {
                    UserRow { status: LifecycleStatus::Deleted, ..old(self).users@[j] }
                } else {
                    old(self).users@[j]
                }),
            !crate::store::active_user_id_in(final(self).users@, id),
            final(self).tenants@ == old(self).tenants@,
            final(self).groups@ == old(self).groups@,
            final(self).memberships@ == old(self).memberships@,
            final(self).next_user_id == old(self).next_user_id,
            final(self).next_tenant_id == old(self).next_tenant_id,
            final(self).next_group_id == old(self).next_group_id,
            final(self).tenant_decode_cache == old(self).tenant_decode_cache,
            final(self).group_decode_cache == old(self).group_decode_cache,
            final(self).tenant_encode_cache == old(self).tenant_encode_cache,
    {
        let idx = match self.find_user_by_id(id) {
            Some(i) => i,
            None => {
                proof {
                    let w = choose|w: int|
                        0 <= w < self.users@.len() && self.users@[w].id == id;
                    assert(false);
                }
                0
            },
        };
        let code = self.users[idx].user_ref.code;
        self.users[idx].status = LifecycleStatus::Deleted;
        self.user_decode_cache.invalidate(code);
        proof {
            let a = old(self).users@;
            let b = self.users@;
            assert forall|j: int| 0 <= j < a.len() implies #[trigger] b[j] == (if a[j].id == id {
                UserRow { status: LifecycleStatus::Deleted, ..a[j] }
            } else {
                a[j]
            }) by {
                if j != idx {
                    assert(a[j].id != a[idx as int].id);
                }
            }
            assert forall|j: int|
                0 <= j < b.len() && (#[trigger] b[j]).is_active() implies b[j].id != id by {
                if j != idx {
                    assert(a[j].id != a[idx as int].id);
                }
            }
            // Cache coherence: the invalidated key was the only entry that
            // could have pointed at the deleted row.
            assert forall|i: int|
                0 <= i < self.memberships@.len() implies crate::store::user_id_in(
                b,
                (#[trigger] self.memberships@[i]).user_id,
            ) by {
                assert(crate::store::user_id_in(a, self.memberships@[i].user_id));
                let w = choose|w: int|
                    0 <= w < a.len() && a[w].id == self.memberships@[i].user_id;
                assert(b[w].id == a[w].id);
            }
            assert forall|k: int|
                0 <= k < self.user_decode_cache.entries@.len()
                    implies crate::store::active_user_ref_resolves(
                b,
                UserRef { code: (#[trigger] self.user_decode_cache.entries@[k]).key },
                self.user_decode_cache.entries@[k].val,
            ) by {
                let e = self.user_decode_cache.entries@[k];
                assert(old(self).user_decode_cache.spec_maps(e.key, e.val));
                let w = choose|w: int|
                    0 <= w < old(self).user_decode_cache.entries@.len() && old(
                        self,
                    ).user_decode_cache.entries@[w] == (crate::resolver::CacheEntry {
                        key: e.key,
                        val: e.val,
                    });
                assert(crate::store::active_user_ref_resolves(
                    a,
                    UserRef { code: e.key },
                    e.val,
                ));
                let u = choose|u: int|
                    0 <= u < a.len() && a[u].is_active() && a[u].user_ref == (UserRef {
                        code: e.key,
                    }) && a[u].id == e.val;
                if u == idx {
                    assert(self.user_decode_cache.spec_has_key(code));
                    assert(false);
                } else {
                    assert(b[u] == a[u]);
                }
            }
        }
    }

    /// Overwrite the profile fields of an active user; the key, reference,
    /// password and lifecycle status stay as they are.  The new username
    /// must not collide with any other active user.
    pub fn update_user_profile(
        &mut self,
        id: u64,
        username: String,
        firstname: String,
        lastname: String,
        email: Option<String>,
        timezone: String,
    )
        requires
            old(self).wf(),
            old(self).spec_active_user_id_exists(id),
            forall|j: int|
                0 <= j < old(self).users@.len() && (#[trigger] old(self).users@[j]).is_active()
                    && old(self).users@[j].id != id ==> old(self).users@[j].username@ != username@,
        ensures
            final(self).wf(),
            final(self).users@.len() == old(self).users@.len(),
            forall|j: int|
                0 <= j < old(self).users@.len() ==> #[trigger] final(self).users@[j] == (if old(
                    self,
                ).users@[j].id == id {
                    UserRow {
                        username,
                        firstname,
                        lastname,
                        email,
                        timezone,
                        ..old(self).users@[j]
                    }
                } else {
                    old(self).users@[j]
                }),
            final(self).tenants@ == old(self).tenants@,
            final(self).groups@ == old(self).groups@,
            final(self).memberships@ == old(self).memberships@,
            final(self).next_user_id == old(self).next_user_id,
            final(self).next_tenant_id == old(self).next_tenant_id,
            final(self).next_group_id == old(self).next_group_id,
            final(self).user_decode_cache == old(self).user_decode_cache,
            final(self).tenant_decode_cache == old(self).tenant_decode_cache,
            final(self).group_decode_cache == old(self).group_decode_cache,
            final(self).tenant_encode_cache == old(self).tenant_encode_cache,
    {
        let idx = match self.find_user_by_id(id) {
            Some(i) => i,
            None => {
                proof {
                    let w = choose|w: int|
                        0 <= w < self.users@.len() && self.users@[w].is_active()
                            && self.users@[w].id == id;
                    assert(false);
                }
                0
            },
        };
        self.users[idx].username = username;
        self.users[idx].firstname = firstname;
        self.users[idx].lastname = lastname;
        self.users[idx].email = email;
        self.users[idx].timezone = timezone;
        proof {
            let a = old(self).users@;
            let b = self.users@;
            assert forall|j: int| 0 <= j < a.len() && j != idx implies #[trigger] b[j] == a[j]
                && a[j].id != id by {
                let w = choose|w: int| 0 <= w < a.len() && a[w].is_active() && a[w].id == id;
                assert(a[idx as int].id == id);
                assert(a[j].id != a[idx as int].id);
            }
            assert forall|i: int|
                0 <= i < self.memberships@.len() implies crate::store::user_id_in(
                b,
                (#[trigger] self.memberships@[i]).user_id,
            ) by {
                assert(crate::store::user_id_in(a, self.memberships@[i].user_id));
                let w = choose|w: int|
                    0 <= w < a.len() && a[w].id == self.memberships@[i].user_id;
                assert(b[w].id == a[w].id);
            }
            assert forall|k: int|
                0 <= k < self.user_decode_cache.entries@.len()
                    implies crate::store::active_user_ref_resolves(
                b,
                UserRef { code: (#[trigger] self.user_decode_cache.entries@[k]).key },
                self.user_decode_cache.entries@[k].val,
            ) by {
                let e = self.user_decode_cache.entries@[k];
                assert(crate::store::active_user_ref_resolves(
                    a,
                    UserRef { code: e.key },
                    e.val,
                ));
                let u = choose|u: int|
                    0 <= u < a.len() && a[u].is_active() && a[u].user_ref == (UserRef {
                        code: e.key,
                    }) && a[u].id == e.val;
                assert(b[u].is_active() && b[u].user_ref == a[u].user_ref && b[u].id == a[u].id);
            }
        }
    }

    /// Replace the stored password hash and hash algorithm of a user.
    pub fn update_user_password(&mut self, id: u64, password: String, password_hash_id: u16)
        requires
            old(self).wf(),
            old(self).spec_user_id_exists(id),
        ensures
            final(self).wf(),
            final(self).users@.len() == old(self).users@.len(),
            forall|j: int|
                0 <= j < old(self).users@.len() ==> #[trigger] final(self).users@[j] == (if old(
                    self,
                ).users@[j].id == id {
                    UserRow { password, password_hash_id, ..old(self).users@[j] }
                } else {
                    old(self).users@[j]
                }),
            final(self).tenants@ == old(self).tenants@,
            final(self).groups@ == old(self).groups@,
            final(self).memberships@ == old(self).memberships@,
            final(self).next_user_id == old(self).next_user_id,
            final(self).next_tenant_id == old(self).next_tenant_id,
            final(self).next_group_id == old(self).next_group_id,
            final(self).user_decode_cache == old(self).user_decode_cache,
            final(self).tenant_decode_cache == old(self).tenant_decode_cache,
            final(self).group_decode_cache == old(self).group_decode_cache,
            final(self).tenant_encode_cache == old(self).tenant_encode_cache,
    {
        let idx = match self.find_user_by_id(id) {
            Some(i) => i,
            None => {
                proof {
                    let w = choose|w: int|
                        0 <= w < self.users@.len() && self.users@[w].id == id;
                    assert(false);
                }
                0
            },
        };
        self.users[idx].password = password;
        self.users[idx].password_hash_id = password_hash_id;
        proof {
            let a = old(self).users@;
            let b = self.users@;
            assert forall|j: int| 0 <= j < a.len() && j != idx implies #[trigger] b[j] == a[j]
                && a[j].id != id by {
                assert(a[j].id != a[idx as int].id);
            }
            assert forall|i: int|
                0 <= i < self.memberships@.len() implies crate::store::user_id_in(
                b,
                (#[trigger] self.memberships@[i]).user_id,
            ) by {
                assert(crate::store::user_id_in(a, self.memberships@[i].user_id));
                let w = choose|w: int|
                    0 <= w < a.len() && a[w].id == self.memberships@[i].user_id;
                assert(b[w].id == a[w].id);
            }
            assert forall|k: int|
                0 <= k < self.user_decode_cache.entries@.len()
                    implies crate::store::active_user_ref_resolves(
                b,
                UserRef { code: (#[trigger] self.user_decode_cache.entries@[k]).key },
                self.user_decode_cache.entries@[k].val,
            ) by {
                let e = self.user_decode_cache.entries@[k];
                assert(crate::store::active_user_ref_resolves(
                    a,
                    UserRef { code: e.key },
                    e.val,
                ));
                let u = choose|u: int|
                    0 <= u < a.len() && a[u].is_active() && a[u].user_ref == (UserRef {
                        code: e.key,
                    }) && a[u].id == e.val;
                assert(b[u].is_active() && b[u].user_ref == a[u].user_ref && b[u].id == a[u].id);
            }
        }
    }

    /// Rename a group; key, reference, type and owning tenant stay as they
    /// are.
    pub fn update_group_name(&mut self, id: u64, name: String)
        requires
            old(self).wf(),
            old(self).spec_group_id_exists(id),
        ensures
            final(self).wf(),
            final(self).groups@.len() == old(self).groups@.len(),
            forall|j: int|
                0 <= j < old(self).groups@.len() ==> #[trigger] final(self).groups@[j] == (if old(
                    self,
                ).groups@[j].id == id {
                    GroupRow { name: Some(name), ..old(self).groups@[j] }
                } else {
                    old(self).groups@[j]
                }),
            final(self).users@ == old(self).users@,
            final(self).tenants@ == old(self).tenants@,
            final(self).memberships@ == old(self).memberships@,
            final(self).next_user_id == old(self).next_user_id,
            final(self).next_tenant_id == old(self).next_tenant_id,
            final(self).next_group_id == old(self).next_group_id,
            final(self).user_decode_cache == old(self).user_decode_cache,
            final(self).tenant_decode_cache == old(self).tenant_decode_cache,
            final(self).group_decode_cache == old(self).group_decode_cache,
            final(self).tenant_encode_cache == old(self).tenant_encode_cache,
    {
        let idx = match self.find_group_by_id(id) {
            Some(i) => i,
            None => {
                proof {
                    let w = choose|w: int|
                        0 <= w < self.groups@.len() && self.groups@[w].id == id;
                    assert(false);
                }
                0
            },
        };
        self.groups[idx].name = Some(name);
        proof {
            let a = old(self).groups@;
            let b = self.groups@;
            assert forall|j: int| 0 <= j < a.len() && j != idx implies #[trigger] b[j] == a[j]
                && a[j].id != id by {
                assert(a[j].id != a[idx as int].id);
            }
            assert(forall|j: int|
                0 <= j < b.len() ==> (#[trigger] b[j]).id == a[j].id && b[j].group_ref
                    == a[j].group_ref && b[j].tenant_id == a[j].tenant_id && b[j].group_type
                    == a[j].group_type);
            assert forall|i: int| 0 <= i < b.len() implies crate::store::tenant_id_in(
                self.tenants@,
                (#[trigger] b[i]).tenant_id,
            ) by {
                assert(crate::store::tenant_id_in(self.tenants@, a[i].tenant_id));
            }
            assert forall|t: int|
                0 <= t < self.tenants@.len() implies crate::store::unique_group_of_type(
                b,
                (#[trigger] self.tenants@[t]).id,
                GroupType::SuperGroup,
            ) && crate::store::unique_group_of_type(
                b,
                self.tenants@[t].id,
                GroupType::AdminGroup,
            ) by {
                let tid = self.tenants@[t].id;
                assert(crate::store::unique_group_of_type(a, tid, GroupType::SuperGroup));
                assert(crate::store::unique_group_of_type(a, tid, GroupType::AdminGroup));
                let ws = choose|w: int|
                    0 <= w < a.len() && a[w].tenant_id == tid && a[w].group_type
                        == GroupType::SuperGroup;
                assert(b[ws].tenant_id == tid && b[ws].group_type == GroupType::SuperGroup);
                let wa = choose|w: int|
                    0 <= w < a.len() && a[w].tenant_id == tid && a[w].group_type
                        == GroupType::AdminGroup;
                assert(b[wa].tenant_id == tid && b[wa].group_type == GroupType::AdminGroup);
            }
            assert forall|i: int|
                0 <= i < self.memberships@.len() implies crate::store::group_id_in(
                b,
                (#[trigger] self.memberships@[i]).group_id,
            ) by {
                assert(crate::store::group_id_in(a, self.memberships@[i].group_id));
                let w = choose|w: int|
                    0 <= w < a.len() && a[w].id == self.memberships@[i].group_id;
                assert(b[w].id == a[w].id);
            }
            assert forall|k: int|
                0 <= k < self.group_decode_cache.entries@.len()
                    implies crate::store::group_ref_resolves(
                b,
                GroupRef { code: (#[trigger] self.group_decode_cache.entries@[k]).key },
                self.group_decode_cache.entries@[k].val,
            ) by {
                let e = self.group_decode_cache.entries@[k];
                assert(crate::store::group_ref_resolves(a, GroupRef { code: e.key }, e.val));
                let u = choose|u: int|
                    0 <= u < a.len() && a[u].group_ref == (GroupRef { code: e.key }) && a[u].id
                        == e.val;
                assert(b[u].group_ref == a[u].group_ref && b[u].id == a[u].id);
            }
        }
    }

    /// Delete a normal group and all its membership edges, as one
    /// transaction, and drop its stale decode translation.  System-managed
    /// groups can never be deleted this way, which keeps every tenant's
    /// supergroup/admingroup pairing intact.
    #[verifier::rlimit(100)]
    pub fn remove_group(&mut self, id: u64)
        requires
            old(self).wf(),
            exists|i: int|
                0 <= i < old(self).groups@.len() && (#[trigger] old(self).groups@[i]).id == id
                    && old(self).groups@[i].group_type is Normal,
        ensures
            final(self).wf(),
            !final(self).spec_group_id_exists(id),
            exists|i: int|
                0 <= i < old(self).groups@.len() && (#[trigger] old(self).groups@[i]).id == id
                    && final(self).groups@ == old(self).groups@.remove(i),
            forall|gid: u64|
                #[trigger] crate::store::group_id_in(old(self).groups@, gid) && gid != id
                    ==> crate::store::group_id_in(final(self).groups@, gid),
            forall|m: Membership|
                #[trigger] final(self).memberships@.contains(m) <==> (old(
                    self,
                ).memberships@.contains(m) && m.group_id != id),
            final(self).users@ == old(self).users@,
            final(self).tenants@ == old(self).tenants@,
            final(self).next_user_id == old(self).next_user_id,
            final(self).next_tenant_id == old(self).next_tenant_id,
            final(self).next_group_id == old(self).next_group_id,
            final(self).user_decode_cache == old(self).user_decode_cache,
            final(self).tenant_decode_cache == old(self).tenant_decode_cache,
            final(self).tenant_encode_cache == old(self).tenant_encode_cache,
    {
        let idx = match self.find_group_by_id(id) {
            Some(i) => i,
            None => {
                proof {
                    let w = choose|w: int|
                        0 <= w < self.groups@.len() && self.groups@[w].id == id
                            && self.groups@[w].group_type is Normal;
                    assert(false);
                }
                0
            },
        };
        proof {
            let w = choose|w: int|
                0 <= w < self.groups@.len() && self.groups@[w].id == id
                    && self.groups@[w].group_type is Normal;
            assert(w == idx);
            lemma_groups_remove_wf(self.groups@, self.tenants@, idx as int, self.next_group_id);
        }
        let ghost a = self.groups@;
        let code = self.groups[idx].group_ref.code;
        self.groups.remove(idx);
        let ghost b = self.groups@;
        let ghost pre_ms = self.memberships@;
        let kept = filter_out_group_memberships(&self.memberships, id);
        self.memberships = kept;
        self.group_decode_cache.invalidate(code);
        proof {
            lemma_remove_group_rest(
                self.users@,
                a,
                idx as int,
                pre_ms,
                self.memberships@,
                old(self).group_decode_cache,
                self.group_decode_cache,
            );
        }
    }

    /// Remove the membership edge between a user and a group; the edge
    /// must be present.  Everything else is untouched.
    pub fn remove_membership(&mut self, user_id: u64, group_id: u64)
        requires
            old(self).wf(),
            old(self).spec_has_membership(user_id, group_id),
        ensures
            final(self).wf(),
            final(self).memberships@.len() == old(self).memberships@.len() - 1,
            !final(self).spec_has_membership(user_id, group_id),
            forall|m: Membership|
                #[trigger] final(self).memberships@.contains(m) <==> (old(
                    self,
                ).memberships@.contains(m) && m != (Membership { user_id, group_id })),
            final(self).users@ == old(self).users@,
            final(self).tenants@ == old(self).tenants@,
            final(self).groups@ == old(self).groups@,
            final(self).next_user_id == old(self).next_user_id,
            final(self).next_tenant_id == old(self).next_tenant_id,
            final(self).next_group_id == old(self).next_group_id,
            final(self).user_decode_cache == old(self).user_decode_cache,
            final(self).tenant_decode_cache == old(self).tenant_decode_cache,
            final(self).group_decode_cache == old(self).group_decode_cache,
            final(self).tenant_encode_cache == old(self).tenant_encode_cache,
    {
        let mut i: usize = 0;
        #[verifier::loop_isolation(false)]
        while i < self.memberships.len()
            invariant
                i <= self.memberships@.len(),
                *self == *old(self),
                forall|j: int|
                    0 <= j < i ==> (#[trigger] self.memberships@[j]) != (Membership {
                        user_id,
                        group_id,
                    }),
            decreases self.memberships@.len() - i,
        {
            if self.memberships[i].user_id == user_id && self.memberships[i].group_id == group_id {
                let ghost pre = self.memberships@;
                self.memberships.remove(i);
                proof {
                    assert(forall|j: int|
                        0 <= j < self.memberships@.len() ==> self.memberships@[j] == (if j < i {
                            pre[j]
                        } else {
                            pre[j + 1]
                        }));
                    assert forall|m: Membership| #[trigger]
                        self.memberships@.contains(m) implies (pre.contains(m) && m != (Membership {
                        user_id,
                        group_id,
                    })) by {
                        let j = choose|j: int|
                            0 <= j < self.memberships@.len() && self.memberships@[j] == m;
                        if j < i {
                            assert(pre[j] == m);
                            assert(pre[j] != pre[i as int]);
                        } else {
                            assert(pre[j + 1] == m);
                            assert(pre[j + 1] != pre[i as int]);
                        }
                    }
                    assert forall|m: Membership|
                        pre.contains(m) && m != (Membership { user_id, group_id }) implies
                        #[trigger] self.memberships@.contains(m) by {
                        let j = choose|j: int| 0 <= j < pre.len() && pre[j] == m;
                        if j < i {
                            assert(self.memberships@[j] == m);
                        } else if j == i {
                            assert(pre[i as int] == (Membership { user_id, group_id }));
                        } else {
                            assert(self.memberships@[j - 1] == m);
                        }
                    }
                    assert forall|a: int, b: int|
                        0 <= a < b < self.memberships@.len() implies (
                    #[trigger] self.memberships@[a]) != (#[trigger] self.memberships@[b]) by {
                        let pa: int = if a < i { a } else { a + 1 };
                        let pb: int = if b < i { b } else { b + 1 };
                        assert(pre[pa] != pre[pb]);
                    }
                    assert forall|j: int|
                        0 <= j < self.memberships@.len() implies crate::store::user_id_in(
                        self.users@,
                        (#[trigger] self.memberships@[j]).user_id,
                    ) && crate::store::group_id_in(self.groups@, self.memberships@[j].group_id) by {
                        let pj: int = if j < i { j } else { j + 1 };
                        assert(self.memberships@[j] == pre[pj]);
                        assert(crate::store::user_id_in(self.users@, pre[pj].user_id));
                        assert(crate::store::group_id_in(self.groups@, pre[pj].group_id));
                    }
                }
                return ;
            }
            i += 1;
        }
        proof {
            let j = choose|j: int|
                0 <= j < old(self).memberships@.len() && old(self).memberships@[j] == (Membership {
                    user_id,
                    group_id,
                });
            assert(false);
        }
    }
}

} // verus!
