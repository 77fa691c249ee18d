//! The transactional backing store, modeled as in-memory relations.
//!
//! Four relations mirror the service's tables: users, tenants, groups and
//! membership edges.  [`AuthDb::wf`] is the store invariant every operation
//! preserves; in particular a tenant always owns exactly one supergroup and
//! one admingroup, so a partially created tenant is never observable.  The
//! reference-resolution caches are part of the store so that the invariant
//! can also say they never hold a stale translation.

use vstd::prelude::*;
use crate::entities::{GroupRef, TenantRef, UserRef};
use crate::groups::structures::GroupType;
use crate::resolver::RefCache;

verus! {

/// Lifecycle of a user row: the transition `Active -> Deleted` is one-way;
/// deleted rows persist for referential integrity of old memberships.
#[derive(Clone, Copy, PartialEq, Eq, Structural, Debug)]
pub enum LifecycleStatus {
    Active,
    Deleted,
}

/// One stored user, password hash included.
#[derive(Clone, Debug)]
pub struct UserRow {
    pub id: u64,
    pub user_ref: UserRef,
    pub username: String,
    pub password: String,
    pub password_hash_id: u16,
    pub firstname: String,
    pub lastname: String,
    pub email: Option<String>,
    pub timezone: String,
    pub status: LifecycleStatus,
    pub is_superuser: bool,
}

impl UserRow {
    pub open spec fn is_active(&self) -> bool {
        self.status is Active
    }
}

/// One stored tenant.
#[derive(Clone, Debug)]
pub struct TenantRow {
    pub id: u64,
    pub tenant_ref: TenantRef,
    pub name: String,
}

/// One stored group, owned by a tenant.  System-managed groups carry no
/// name.
#[derive(Clone, Debug)]
pub struct GroupRow {
    pub id: u64,
    pub group_ref: GroupRef,
    pub name: Option<String>,
    pub group_type: GroupType,
    pub tenant_id: u64,
}

/// An unordered membership edge between a user and a group, unique per
/// pair.
#[derive(Clone, Copy, PartialEq, Eq, Structural, Debug)]
pub struct Membership {
    pub user_id: u64,
    pub group_id: u64,
}

// ----------------------------------------------------------------------
// Row-existence predicates over the raw relations
// ----------------------------------------------------------------------
pub open spec fn user_id_in(users: Seq<UserRow>, id: u64) -> bool {
    exists|i: int| 0 <= i < users.len() && (#[trigger] users[i]).id == id
}

pub open spec fn user_ref_in(users: Seq<UserRow>, r: UserRef) -> bool {
    exists|i: int| 0 <= i < users.len() && (#[trigger] users[i]).user_ref == r
}

pub open spec fn active_user_id_in(users: Seq<UserRow>, id: u64) -> bool {
    exists|i: int| 0 <= i < users.len() && (#[trigger] users[i]).is_active() && users[i].id == id
}

pub open spec fn active_user_ref_in(users: Seq<UserRow>, r: UserRef) -> bool {
    exists|i: int|
        0 <= i < users.len() && (#[trigger] users[i]).is_active() && users[i].user_ref == r
}

/// An active user carries the given external reference and internal key;
/// soft-deleted rows never satisfy this.
pub open spec fn active_user_ref_resolves(users: Seq<UserRow>, r: UserRef, id: u64) -> bool {
    exists|i: int|
        0 <= i < users.len() && (#[trigger] users[i]).is_active() && users[i].user_ref == r
            && users[i].id == id
}

pub open spec fn active_username_in(users: Seq<UserRow>, name: Seq<char>) -> bool {
    exists|i: int|
        0 <= i < users.len() && (#[trigger] users[i]).is_active() && users[i].username@ == name
}

pub open spec fn tenant_id_in(tenants: Seq<TenantRow>, id: u64) -> bool {
    exists|i: int| 0 <= i < tenants.len() && (#[trigger] tenants[i]).id == id
}

pub open spec fn tenant_ref_in(tenants: Seq<TenantRow>, r: TenantRef) -> bool {
    exists|i: int| 0 <= i < tenants.len() && (#[trigger] tenants[i]).tenant_ref == r
}

pub open spec fn tenant_ref_resolves(tenants: Seq<TenantRow>, r: TenantRef, id: u64) -> bool {
    exists|i: int|
        0 <= i < tenants.len() && (#[trigger] tenants[i]).tenant_ref == r && tenants[i].id == id
}

pub open spec fn group_id_in(groups: Seq<GroupRow>, id: u64) -> bool {
    exists|i: int| 0 <= i < groups.len() && (#[trigger] groups[i]).id == id
}

pub open spec fn group_ref_in(groups: Seq<GroupRow>, r: GroupRef) -> bool {
    exists|i: int| 0 <= i < groups.len() && (#[trigger] groups[i]).group_ref == r
}

pub open spec fn group_ref_resolves(groups: Seq<GroupRow>, r: GroupRef, id: u64) -> bool {
    exists|i: int|
        0 <= i < groups.len() && (#[trigger] groups[i]).group_ref == r && groups[i].id == id
}

pub open spec fn group_of_type_in(groups: Seq<GroupRow>, tenant_id: u64, gt: GroupType) -> bool {
    exists|i: int|
        0 <= i < groups.len() && (#[trigger] groups[i]).tenant_id == tenant_id
            && groups[i].group_type == gt
}

/// The tenant owns exactly one group of the given type.
pub open spec fn unique_group_of_type(groups: Seq<GroupRow>, tenant_id: u64, gt: GroupType) -> bool {
    &&& group_of_type_in(groups, tenant_id, gt)
    &&& forall|i: int, j: int|
        0 <= i < groups.len() && 0 <= j < groups.len() && (#[trigger] groups[i]).tenant_id
            == tenant_id && (#[trigger] groups[j]).tenant_id == tenant_id && groups[i].group_type
            == gt && groups[j].group_type == gt ==> i == j
}

// ----------------------------------------------------------------------
// Well-formedness of the individual relations
// ----------------------------------------------------------------------
pub open spec fn users_rows_wf(users: Seq<UserRow>, next_id: u64) -> bool {
    &&& forall|i: int, j: int|
        0 <= i < j < users.len() ==> (#[trigger] users[i]).id != (#[trigger] users[j]).id
    &&& forall|i: int, j: int|
        0 <= i < j < users.len() ==> (#[trigger] users[i]).user_ref != (
        #[trigger] users[j]).user_ref
    &&& forall|i: int, j: int|
        0 <= i < j < users.len() && (#[trigger] users[i]).is_active() && (
        #[trigger] users[j]).is_active() ==> users[i].username@ != users[j].username@
    &&& forall|i: int| 0 <= i < users.len() ==> (#[trigger] users[i]).id < next_id
}

pub open spec fn tenants_rows_wf(tenants: Seq<TenantRow>, next_id: u64) -> bool {
    &&& forall|i: int, j: int|
        0 <= i < j < tenants.len() ==> (#[trigger] tenants[i]).id != (#[trigger] tenants[j]).id
    &&& forall|i: int, j: int|
        0 <= i < j < tenants.len() ==> (#[trigger] tenants[i]).tenant_ref != (
        #[trigger] tenants[j]).tenant_ref
    &&& forall|i: int| 0 <= i < tenants.len() ==> (#[trigger] tenants[i]).id < next_id
}

pub open spec fn groups_rows_wf(groups: Seq<GroupRow>, tenants: Seq<TenantRow>, next_id: u64) -> bool {
    &&& forall|i: int, j: int|
        0 <= i < j < groups.len() ==> (#[trigger] groups[i]).id != (#[trigger] groups[j]).id
    &&& forall|i: int, j: int|
        0 <= i < j < groups.len() ==> (#[trigger] groups[i]).group_ref != (
        #[trigger] groups[j]).group_ref
    &&& forall|i: int| 0 <= i < groups.len() ==> (#[trigger] groups[i]).id < next_id
    &&& forall|i: int|
        0 <= i < groups.len() ==> tenant_id_in(tenants, (#[trigger] groups[i]).tenant_id)
    &&& forall|i: int|
        0 <= i < groups.len() && (#[trigger] groups[i]).group_type is Normal ==> groups[i].name
            is Some
}

/// Every tenant owns exactly one supergroup and one admingroup.
pub open spec fn special_groups_ok(tenants: Seq<TenantRow>, groups: Seq<GroupRow>) -> bool {
    forall|t: int|
        0 <= t < tenants.len() ==> unique_group_of_type(
            groups,
            (#[trigger] tenants[t]).id,
            GroupType::SuperGroup,
        ) && unique_group_of_type(groups, tenants[t].id, GroupType::AdminGroup)
}

pub open spec fn memberships_ok(
    ms: Seq<Membership>,
    users: Seq<UserRow>,
    groups: Seq<GroupRow>,
) -> bool {
    &&& forall|i: int, j: int|
        0 <= i < j < ms.len() ==> (#[trigger] ms[i]) != (#[trigger] ms[j])
    &&& forall|i: int| 0 <= i < ms.len() ==> user_id_in(users, (#[trigger] ms[i]).user_id)
    &&& forall|i: int| 0 <= i < ms.len() ==> group_id_in(groups, (#[trigger] ms[i]).group_id)
}

/// Every memoized decode of a user reference matches an active row.
pub open spec fn user_cache_ok(c: RefCache, users: Seq<UserRow>) -> bool {
    forall|k: int|
        0 <= k < c.entries@.len() ==> active_user_ref_resolves(
            users,
            UserRef { code: (#[trigger] c.entries@[k]).key },
            c.entries@[k].val,
        )
}

pub open spec fn tenant_cache_ok(c: RefCache, tenants: Seq<TenantRow>) -> bool {
    forall|k: int|
        0 <= k < c.entries@.len() ==> tenant_ref_resolves(
            tenants,
            TenantRef { code: (#[trigger] c.entries@[k]).key },
            c.entries@[k].val,
        )
}

pub open spec fn group_cache_ok(c: RefCache, groups: Seq<GroupRow>) -> bool {
    forall|k: int|
        0 <= k < c.entries@.len() ==> group_ref_resolves(
            groups,
            GroupRef { code: (#[trigger] c.entries@[k]).key },
            c.entries@[k].val,
        )
}

/// Every memoized encode of a tenant key matches the stored reference.
pub open spec fn tenant_encode_ok(c: RefCache, tenants: Seq<TenantRow>) -> bool {
    forall|k: int|
        0 <= k < c.entries@.len() ==> tenant_ref_resolves(
            tenants,
            TenantRef { code: (#[trigger] c.entries@[k]).val },
            c.entries@[k].key,
        )
}

/// The group with key `group_id` belongs to the tenant whose external
/// reference is `r`.
pub open spec fn group_tenant_ref_is(
    groups: Seq<GroupRow>,
    tenants: Seq<TenantRow>,
    group_id: u64,
    r: TenantRef,
) -> bool {
    exists|i: int, j: int|
        0 <= i < groups.len() && 0 <= j < tenants.len() && (#[trigger] groups[i]).id == group_id
            && (#[trigger] tenants[j]).id == groups[i].tenant_id && tenants[j].tenant_ref == r
}

/// The user belongs to the tenant with reference `tr`: a membership edge
/// ties the user to that tenant's supergroup.
pub open spec fn user_in_tenant(
    tenants: Seq<TenantRow>,
    groups: Seq<GroupRow>,
    ms: Seq<Membership>,
    user_id: u64,
    tr: TenantRef,
) -> bool {
    exists|g: int, t: int|
        0 <= g < groups.len() && 0 <= t < tenants.len() && (#[trigger] groups[g]).group_type
            is SuperGroup && (#[trigger] tenants[t]).id == groups[g].tenant_id
            && tenants[t].tenant_ref == tr && ms.contains(
            Membership { user_id, group_id: groups[g].id },
        )
}

/// The user is an active member of the group: an active row plus a
/// membership edge.
pub open spec fn active_member(
    users: Seq<UserRow>,
    ms: Seq<Membership>,
    user_id: u64,
    group_id: u64,
) -> bool {
    active_user_id_in(users, user_id) && ms.contains(Membership { user_id, group_id })
}

/// The group of the given tenant and type that the user belongs to.
pub open spec fn member_of_tenant_group(
    groups: Seq<GroupRow>,
    ms: Seq<Membership>,
    user_id: u64,
    tenant_id: u64,
    gr: GroupRef,
) -> bool {
    exists|g: int|
        0 <= g < groups.len() && (#[trigger] groups[g]).tenant_id == tenant_id
            && groups[g].group_ref == gr && ms.contains(
            Membership { user_id, group_id: groups[g].id },
        )
}

/// `b` extends `a`: the rows of `a` form a prefix of `b`.
pub open spec fn seq_extends<T>(b: Seq<T>, a: Seq<T>) -> bool {
    a.len() <= b.len() && forall|i: int| 0 <= i < a.len() ==> b[i] == #[trigger] a[i]
}

// ----------------------------------------------------------------------
// Extension lemmas: appending rows never invalidates a positive
// existence fact.
// ----------------------------------------------------------------------
pub proof fn lemma_user_preds_extend(a: Seq<UserRow>, b: Seq<UserRow>)
    requires
        seq_extends(b, a),
    ensures
        forall|id: u64| #[trigger] user_id_in(a, id) ==> user_id_in(b, id),
        forall|r: UserRef| #[trigger] user_ref_in(a, r) ==> user_ref_in(b, r),
        forall|id: u64| #[trigger] active_user_id_in(a, id) ==> active_user_id_in(b, id),
        forall|r: UserRef| #[trigger] active_user_ref_in(a, r) ==> active_user_ref_in(b, r),
        forall|r: UserRef, id: u64| #[trigger]
            active_user_ref_resolves(a, r, id) ==> active_user_ref_resolves(b, r, id),
        forall|n: Seq<char>| #[trigger] active_username_in(a, n) ==> active_username_in(b, n),
{
    assert forall|id: u64| #[trigger] user_id_in(a, id) implies user_id_in(b, id) by {
        let i = choose|i: int| 0 <= i < a.len() && a[i].id == id;
        assert(b[i].id == id);
    }
    assert forall|r: UserRef| #[trigger] user_ref_in(a, r) implies user_ref_in(b, r) by {
        let i = choose|i: int| 0 <= i < a.len() && a[i].user_ref == r;
        assert(b[i].user_ref == r);
    }
    assert forall|id: u64| #[trigger] active_user_id_in(a, id) implies active_user_id_in(
        b,
        id,
    ) by {
        let i = choose|i: int| 0 <= i < a.len() && a[i].is_active() && a[i].id == id;
        assert(b[i].is_active() && b[i].id == id);
    }
    assert forall|r: UserRef| #[trigger] active_user_ref_in(a, r) implies active_user_ref_in(
        b,
        r,
    ) by {
        let i = choose|i: int| 0 <= i < a.len() && a[i].is_active() && a[i].user_ref == r;
        assert(b[i].is_active() && b[i].user_ref == r);
    }
    assert forall|r: UserRef, id: u64| #[trigger]
        active_user_ref_resolves(a, r, id) implies active_user_ref_resolves(b, r, id) by {
        let i = choose|i: int|
            0 <= i < a.len() && a[i].is_active() && a[i].user_ref == r && a[i].id == id;
        assert(b[i].is_active() && b[i].user_ref == r && b[i].id == id);
    }
    assert forall|n: Seq<char>| #[trigger] active_username_in(a, n) implies active_username_in(
        b,
        n,
    ) by {
        let i = choose|i: int| 0 <= i < a.len() && a[i].is_active() && a[i].username@ == n;
        assert(b[i].is_active() && b[i].username@ == n);
    }
}

pub proof fn lemma_tenant_preds_extend(a: Seq<TenantRow>, b: Seq<TenantRow>)
    requires
        seq_extends(b, a),
    ensures
        forall|id: u64| #[trigger] tenant_id_in(a, id) ==> tenant_id_in(b, id),
        forall|r: TenantRef| #[trigger] tenant_ref_in(a, r) ==> tenant_ref_in(b, r),
        forall|r: TenantRef, id: u64| #[trigger]
            tenant_ref_resolves(a, r, id) ==> tenant_ref_resolves(b, r, id),
{
    assert forall|id: u64| #[trigger] tenant_id_in(a, id) implies tenant_id_in(b, id) by {
        let i = choose|i: int| 0 <= i < a.len() && a[i].id == id;
        assert(b[i].id == id);
    }
    assert forall|r: TenantRef| #[trigger] tenant_ref_in(a, r) implies tenant_ref_in(b, r) by {
        let i = choose|i: int| 0 <= i < a.len() && a[i].tenant_ref == r;
        assert(b[i].tenant_ref == r);
    }
    assert forall|r: TenantRef, id: u64| #[trigger]
        tenant_ref_resolves(a, r, id) implies tenant_ref_resolves(b, r, id) by {
        let i = choose|i: int| 0 <= i < a.len() && a[i].tenant_ref == r && a[i].id == id;
        assert(b[i].tenant_ref == r && b[i].id == id);
    }
}

pub proof fn lemma_group_preds_extend(a: Seq<GroupRow>, b: Seq<GroupRow>)
    requires
        seq_extends(b, a),
    ensures
        forall|id: u64| #[trigger] group_id_in(a, id) ==> group_id_in(b, id),
        forall|r: GroupRef| #[trigger] group_ref_in(a, r) ==> group_ref_in(b, r),
        forall|r: GroupRef, id: u64| #[trigger]
            group_ref_resolves(a, r, id) ==> group_ref_resolves(b, r, id),
        forall|tid: u64, gt: GroupType| #[trigger]
            group_of_type_in(a, tid, gt) ==> group_of_type_in(b, tid, gt),
{
    assert forall|id: u64| #[trigger] group_id_in(a, id) implies group_id_in(b, id) by {
        let i = choose|i: int| 0 <= i < a.len() && a[i].id == id;
        assert(b[i].id == id);
    }
    assert forall|r: GroupRef| #[trigger] group_ref_in(a, r) implies group_ref_in(b, r) by {
        let i = choose|i: int| 0 <= i < a.len() && a[i].group_ref == r;
        assert(b[i].group_ref == r);
    }
    assert forall|r: GroupRef, id: u64| #[trigger]
        group_ref_resolves(a, r, id) implies group_ref_resolves(b, r, id) by {
        let i = choose|i: int| 0 <= i < a.len() && a[i].group_ref == r && a[i].id == id;
        assert(b[i].group_ref == r && b[i].id == id);
    }
    assert forall|tid: u64, gt: GroupType| #[trigger]
        group_of_type_in(a, tid, gt) implies group_of_type_in(b, tid, gt) by {
        let i = choose|i: int| 0 <= i < a.len() && a[i].tenant_id == tid && a[i].group_type == gt;
        assert(b[i].tenant_id == tid && b[i].group_type == gt);
    }
}

// ----------------------------------------------------------------------
// Functionality lemmas: on unique-keyed relations a reference resolves
// to at most one row, and a group key names at most one owning tenant.
// ----------------------------------------------------------------------
pub proof fn lemma_active_user_ref_functional(users: Seq<UserRow>, r: UserRef, id1: u64, id2: u64)
    requires
        forall|i: int, j: int|
            0 <= i < j < users.len() ==> (#[trigger] users[i]).user_ref != (
            #[trigger] users[j]).user_ref,
        active_user_ref_resolves(users, r, id1),
        active_user_ref_resolves(users, r, id2),
    ensures
        id1 == id2,
{
    let i1 = choose|i: int|
        0 <= i < users.len() && (#[trigger] users[i]).is_active() && users[i].user_ref == r
            && users[i].id == id1;
    let i2 = choose|i: int|
        0 <= i < users.len() && (#[trigger] users[i]).is_active() && users[i].user_ref == r
            && users[i].id == id2;
    assert(i1 == i2);
}

pub proof fn lemma_group_ref_functional(groups: Seq<GroupRow>, r: GroupRef, id1: u64, id2: u64)
    requires
        forall|i: int, j: int|
            0 <= i < j < groups.len() ==> (#[trigger] groups[i]).group_ref != (
            #[trigger] groups[j]).group_ref,
        group_ref_resolves(groups, r, id1),
        group_ref_resolves(groups, r, id2),
    ensures
        id1 == id2,
{
    let i1 = choose|i: int|
        0 <= i < groups.len() && (#[trigger] groups[i]).group_ref == r && groups[i].id == id1;
    let i2 = choose|i: int|
        0 <= i < groups.len() && (#[trigger] groups[i]).group_ref == r && groups[i].id == id2;
    assert(i1 == i2);
}

pub proof fn lemma_tenant_ref_functional(tenants: Seq<TenantRow>, r: TenantRef, id1: u64, id2: u64)
    requires
        forall|i: int, j: int|
            0 <= i < j < tenants.len() ==> (#[trigger] tenants[i]).tenant_ref != (
            #[trigger] tenants[j]).tenant_ref,
        tenant_ref_resolves(tenants, r, id1),
        tenant_ref_resolves(tenants, r, id2),
    ensures
        id1 == id2,
{
    let i1 = choose|i: int|
        0 <= i < tenants.len() && (#[trigger] tenants[i]).tenant_ref == r && tenants[i].id == id1;
    let i2 = choose|i: int|
        0 <= i < tenants.len() && (#[trigger] tenants[i]).tenant_ref == r && tenants[i].id == id2;
    assert(i1 == i2);
}

/// A stored group key determines its owning tenant's external reference.
pub proof fn lemma_group_tenant_ref_functional(
    groups: Seq<GroupRow>,
    tenants: Seq<TenantRow>,
    group_id: u64,
    r1: TenantRef,
    r2: TenantRef,
)
    requires
        forall|i: int, j: int|
            0 <= i < j < groups.len() ==> (#[trigger] groups[i]).id != (#[trigger] groups[j]).id,
        forall|i: int, j: int|
            0 <= i < j < tenants.len() ==> (#[trigger] tenants[i]).id != (
            #[trigger] tenants[j]).id,
        group_tenant_ref_is(groups, tenants, group_id, r1),
        group_tenant_ref_is(groups, tenants, group_id, r2),
    ensures
        r1 == r2,
{
    let (i1, j1): (int, int) = choose|i: int, j: int|
        0 <= i < groups.len() && 0 <= j < tenants.len() && (#[trigger] groups[i]).id == group_id
            && (#[trigger] tenants[j]).id == groups[i].tenant_id && tenants[j].tenant_ref == r1;
    let (i2, j2): (int, int) = choose|i: int, j: int|
        0 <= i < groups.len() && 0 <= j < tenants.len() && (#[trigger] groups[i]).id == group_id
            && (#[trigger] tenants[j]).id == groups[i].tenant_id && tenants[j].tenant_ref == r2;
    assert(i1 == i2);
    assert(j1 == j2);
}

/// The in-memory relational store together with the resolver caches.
pub struct AuthDb {
    pub users: Vec<UserRow>,
    pub tenants: Vec<TenantRow>,
    pub groups: Vec<GroupRow>,
    pub memberships: Vec<Membership>,
    pub next_user_id: u64,
    pub next_tenant_id: u64,
    pub next_group_id: u64,
    pub user_decode_cache: RefCache,
    pub tenant_decode_cache: RefCache,
    pub group_decode_cache: RefCache,
    pub tenant_encode_cache: RefCache,
}

impl AuthDb {
    pub open spec fn spec_user_id_exists(&self, id: u64) -> bool {
        user_id_in(self.users@, id)
    }

    pub open spec fn spec_user_ref_exists(&self, r: UserRef) -> bool {
        user_ref_in(self.users@, r)
    }

    pub open spec fn spec_active_user_ref_resolves_to(&self, r: UserRef, id: u64) -> bool {
        active_user_ref_resolves(self.users@, r, id)
    }

    pub open spec fn spec_active_user_ref_exists(&self, r: UserRef) -> bool {
        active_user_ref_in(self.users@, r)
    }

    pub open spec fn spec_active_user_id_exists(&self, id: u64) -> bool {
        active_user_id_in(self.users@, id)
    }

    pub open spec fn spec_active_username_exists(&self, name: Seq<char>) -> bool {
        active_username_in(self.users@, name)
    }

    pub open spec fn spec_tenant_id_exists(&self, id: u64) -> bool {
        tenant_id_in(self.tenants@, id)
    }

    pub open spec fn spec_tenant_ref_exists(&self, r: TenantRef) -> bool {
        tenant_ref_in(self.tenants@, r)
    }

    pub open spec fn spec_tenant_ref_resolves_to(&self, r: TenantRef, id: u64) -> bool {
        tenant_ref_resolves(self.tenants@, r, id)
    }

    pub open spec fn spec_group_id_exists(&self, id: u64) -> bool {
        group_id_in(self.groups@, id)
    }

    pub open spec fn spec_group_ref_exists(&self, r: GroupRef) -> bool {
        group_ref_in(self.groups@, r)
    }

    pub open spec fn spec_group_ref_resolves_to(&self, r: GroupRef, id: u64) -> bool {
        group_ref_resolves(self.groups@, r, id)
    }

    /// The membership edge between the given user and group is stored.
    pub open spec fn spec_has_membership(&self, user_id: u64, group_id: u64) -> bool {
        self.memberships@.contains(Membership { user_id, group_id })
    }

    pub open spec fn spec_unique_group_of_type(&self, tenant_id: u64, gt: GroupType) -> bool {
        unique_group_of_type(self.groups@, tenant_id, gt)
    }

    /// The store invariant: relational integrity, the one-supergroup /
    /// one-admingroup pairing, and cache coherence.
    pub open spec fn wf(&self) -> bool {
        &&& users_rows_wf(self.users@, self.next_user_id)
        &&& tenants_rows_wf(self.tenants@, self.next_tenant_id)
        &&& groups_rows_wf(self.groups@, self.tenants@, self.next_group_id)
        &&& special_groups_ok(self.tenants@, self.groups@)
        &&& memberships_ok(self.memberships@, self.users@, self.groups@)
        &&& self.user_decode_cache.wf()
        &&& self.tenant_decode_cache.wf()
        &&& self.group_decode_cache.wf()
        &&& self.tenant_encode_cache.wf()
        &&& user_cache_ok(self.user_decode_cache, self.users@)
        &&& tenant_cache_ok(self.tenant_decode_cache, self.tenants@)
        &&& group_cache_ok(self.group_decode_cache, self.groups@)
        &&& tenant_encode_ok(self.tenant_encode_cache, self.tenants@)
    }

    /// The relations and counters of `self` and `other` agree; only the
    /// caches may differ.  Lookups that memoize ensure this.
    pub open spec fn same_data(&self, other: &AuthDb) -> bool {
        &&& self.users@ == other.users@
        &&& self.tenants@ == other.tenants@
        &&& self.groups@ == other.groups@
        &&& self.memberships@ == other.memberships@
        &&& self.next_user_id == other.next_user_id
        &&& self.next_tenant_id == other.next_tenant_id
        &&& self.next_group_id == other.next_group_id
    }

    /// An empty store.
    pub fn new() -> (r: AuthDb)
        ensures
            r.wf(),
            r.users@.len() == 0,
            r.tenants@.len() == 0,
            r.groups@.len() == 0,
            r.memberships@.len() == 0,
    {
        AuthDb {
            users: Vec::new(),
            tenants: Vec::new(),
            groups: Vec::new(),
            memberships: Vec::new(),
            next_user_id: 1,
            next_tenant_id: 1,
            next_group_id: 1,
            user_decode_cache: RefCache::new(),
            tenant_decode_cache: RefCache::new(),
            group_decode_cache: RefCache::new(),
            tenant_encode_cache: RefCache::new(),
        }
    }

    // ------------------------------------------------------------------
    // Finders
    // ------------------------------------------------------------------
    pub fn find_user_by_id(&self, id: u64) -> (r: Option<usize>)
        ensures
            match r {
                Some(i) => i < self.users@.len() && self.users@[i as int].id == id,
                None => !self.spec_user_id_exists(id),
            },
    {
        let mut i: usize = 0;
        while i < self.users.len()
            invariant
                i <= self.users@.len(),
                forall|j: int| 0 <= j < i ==> (#[trigger] self.users@[j]).id != id,
            decreases self.users@.len() - i,
        {
            if self.users[i].id == id {
                return Some(i);
            }
            i += 1;
        }
        None
    }

    pub fn find_user_by_ref(&self, r: &UserRef) -> (res: Option<usize>)
        ensures
            match res {
                Some(i) => i < self.users@.len() && self.users@[i as int].user_ref == *r,
                None => !self.spec_user_ref_exists(*r),
            },
    {
        let mut i: usize = 0;
        while i < self.users.len()
            invariant
                i <= self.users@.len(),
                forall|j: int| 0 <= j < i ==> (#[trigger] self.users@[j]).user_ref != *r,
            decreases self.users@.len() - i,
        {
            if self.users[i].user_ref == *r {
                return Some(i);
            }
            i += 1;
        }
        None
    }

    pub fn find_active_user_by_ref(&self, r: &UserRef) -> (res: Option<usize>)
        ensures
            match res {
                Some(i) => i < self.users@.len() && self.users@[i as int].is_active()
                    && self.users@[i as int].user_ref == *r,
                None => !self.spec_active_user_ref_exists(*r),
            },
    {
        let mut i: usize = 0;
        while i < self.users.len()
            invariant
                i <= self.users@.len(),
                forall|j: int|
                    0 <= j < i ==> !((#[trigger] self.users@[j]).is_active()
                        && self.users@[j].user_ref == *r),
            decreases self.users@.len() - i,
        {
            if self.users[i].status == LifecycleStatus::Active && self.users[i].user_ref == *r {
                return Some(i);
            }
            i += 1;
        }
        None
    }

    pub fn find_active_user_by_username(&self, name: &String) -> (res: Option<usize>)
        ensures
            match res {
                Some(i) => i < self.users@.len() && self.users@[i as int].is_active()
                    && self.users@[i as int].username@ == name@,
                None => !self.spec_active_username_exists(name@),
            },
    {
        let mut i: usize = 0;
        while i < self.users.len()
            invariant
                i <= self.users@.len(),
                forall|j: int|
                    0 <= j < i ==> !((#[trigger] self.users@[j]).is_active()
                        && self.users@[j].username@ == name@),
            decreases self.users@.len() - i,
        {
            if self.users[i].status == LifecycleStatus::Active && self.users[i].username == *name {
                return Some(i);
            }
            i += 1;
        }
        None
    }

    pub fn find_tenant_by_id(&self, id: u64) -> (r: Option<usize>)
        ensures
            match r {
                Some(i) => i < self.tenants@.len() && self.tenants@[i as int].id == id,
                None => !self.spec_tenant_id_exists(id),
            },
    {
        let mut i: usize = 0;
        while i < self.tenants.len()
            invariant
                i <= self.tenants@.len(),
                forall|j: int| 0 <= j < i ==> (#[trigger] self.tenants@[j]).id != id,
            decreases self.tenants@.len() - i,
        {
            if self.tenants[i].id == id {
                return Some(i);
            }
            i += 1;
        }
        None
    }

    pub fn find_tenant_by_ref(&self, r: &TenantRef) -> (res: Option<usize>)
        ensures
            match res {
                Some(i) => i < self.tenants@.len() && self.tenants@[i as int].tenant_ref == *r,
                None => !self.spec_tenant_ref_exists(*r),
            },
    {
        let mut i: usize = 0;
        while i < self.tenants.len()
            invariant
                i <= self.tenants@.len(),
                forall|j: int| 0 <= j < i ==> (#[trigger] self.tenants@[j]).tenant_ref != *r,
            decreases self.tenants@.len() - i,
        {
            if self.tenants[i].tenant_ref == *r {
                return Some(i);
            }
            i += 1;
        }
        None
    }

    pub fn find_group_by_id(&self, id: u64) -> (r: Option<usize>)
        ensures
            match r {
                Some(i) => i < self.groups@.len() && self.groups@[i as int].id == id,
                None => !self.spec_group_id_exists(id),
            },
    {
        let mut i: usize = 0;
        while i < self.groups.len()
            invariant
                i <= self.groups@.len(),
                forall|j: int| 0 <= j < i ==> (#[trigger] self.groups@[j]).id != id,
            decreases self.groups@.len() - i,
        {
            if self.groups[i].id == id {
                return Some(i);
            }
            i += 1;
        }
        None
    }

    pub fn find_group_by_ref(&self, r: &GroupRef) -> (res: Option<usize>)
        ensures
            match res {
                Some(i) => i < self.groups@.len() && self.groups@[i as int].group_ref == *r,
                None => !self.spec_group_ref_exists(*r),
            },
    {
        let mut i: usize = 0;
        while i < self.groups.len()
            invariant
                i <= self.groups@.len(),
                forall|j: int| 0 <= j < i ==> (#[trigger] self.groups@[j]).group_ref != *r,
            decreases self.groups@.len() - i,
        {
            if self.groups[i].group_ref == *r {
                return Some(i);
            }
            i += 1;
        }
        None
    }

    /// First group of the given tenant and type; for the system-managed
    /// types the store invariant makes it the only one.
    pub fn find_group_of_type(&self, tenant_id: u64, gt: GroupType) -> (r: Option<usize>)
        ensures
            match r {
                Some(i) => i < self.groups@.len() && self.groups@[i as int].tenant_id == tenant_id
                    && self.groups@[i as int].group_type == gt,
                None => !group_of_type_in(self.groups@, tenant_id, gt),
            },
    {
        let mut i: usize = 0;
        while i < self.groups.len()
            invariant
                i <= self.groups@.len(),
                forall|j: int|
                    0 <= j < i ==> !((#[trigger] self.groups@[j]).tenant_id == tenant_id
                        && self.groups@[j].group_type == gt),
            decreases self.groups@.len() - i,
        {
            if self.groups[i].tenant_id == tenant_id && self.groups[i].group_type == gt {
                return Some(i);
            }
            i += 1;
        }
        None
    }

    pub fn has_membership(&self, user_id: u64, group_id: u64) -> (r: bool)
        ensures
            r == self.spec_has_membership(user_id, group_id),
    {
        let mut i: usize = 0;
        while i < self.memberships.len()
            invariant
                i <= self.memberships@.len(),
                forall|j: int|
                    0 <= j < i ==> (#[trigger] self.memberships@[j]) != (Membership {
                        user_id,
                        group_id,
                    }),
            decreases self.memberships@.len() - i,
        {
            if self.memberships[i].user_id == user_id && self.memberships[i].group_id == group_id {
                return true;
            }
            i += 1;
        }
        false
    }
}

} // verus!
