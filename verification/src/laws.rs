//! The store-wide laws: properties that hold of every well-formed store,
//! stated once and proved from the invariant and the operation contracts.

use vstd::prelude::*;
use crate::auth::{spec_authorize, AuthOperation};
use crate::entities::{GroupRef, LoggedInUser, TenantRef, UserRef};
use crate::groups::structures::GroupType;
use crate::store::{AuthDb, Membership};

verus! {

/// The highest tier overrides the whole decision table: a global
/// superuser is allowed every operation.
pub proof fn lemma_superuser_always_authorized(actor: &LoggedInUser, op: &AuthOperation)
    requires
        actor.user.is_superuser,
    ensures
        spec_authorize(actor, op),
{
}

/// Every stored tenant owns exactly one supergroup and exactly one
/// admingroup; `get_tenant_supergroup` and `get_tenant_admingroup` can
/// therefore never report more or less than one.
pub proof fn lemma_tenant_special_groups(db: &AuthDb, tenant_id: u64)
    requires
        db.wf(),
        db.spec_tenant_id_exists(tenant_id),
    ensures
        db.spec_unique_group_of_type(tenant_id, GroupType::SuperGroup),
        db.spec_unique_group_of_type(tenant_id, GroupType::AdminGroup),
{
    let t = choose|t: int| 0 <= t < db.tenants@.len() && (#[trigger] db.tenants@[t]).id == tenant_id;
}

/// A membership edge is never stored twice: once an edge is present, it
/// sits at exactly one position, so a second insertion of the same edge
/// can only be refused and the count for the pair stays one.
pub proof fn lemma_membership_stored_once(db: &AuthDb, user_id: u64, group_id: u64)
    requires
        db.wf(),
        db.spec_has_membership(user_id, group_id),
    ensures
        exists|i: int|
            0 <= i < db.memberships@.len() && (#[trigger] db.memberships@[i]) == (Membership {
                user_id,
                group_id,
            }),
        forall|i: int, j: int|
            0 <= i < db.memberships@.len() && 0 <= j < db.memberships@.len() && (
            #[trigger] db.memberships@[i]) == (Membership { user_id, group_id }) && (
            #[trigger] db.memberships@[j]) == (Membership { user_id, group_id }) ==> i == j,
{
    let w = choose|w: int|
        0 <= w < db.memberships@.len() && db.memberships@[w] == (Membership {
            user_id,
            group_id,
        });
    assert(db.memberships@[w] == (Membership { user_id, group_id }));
}

/// A soft-deleted user's row persists under its internal key, yet its
/// external reference no longer resolves: resolution only ever sees
/// active rows, and references are unique across all rows.
pub proof fn lemma_deleted_row_persists_but_unresolvable(db: &AuthDb, i: int)
    requires
        db.wf(),
        0 <= i < db.users@.len(),
        !db.users@[i].is_active(),
    ensures
        db.spec_user_id_exists(db.users@[i].id),
        !db.spec_active_user_ref_exists(db.users@[i].user_ref),
{
    assert(db.users@[i].id == db.users@[i].id);
    if db.spec_active_user_ref_exists(db.users@[i].user_ref) {
        let w = choose|w: int|
            0 <= w < db.users@.len() && (#[trigger] db.users@[w]).is_active()
                && db.users@[w].user_ref == db.users@[i].user_ref;
        assert(w != i);
        assert(db.users@[w].user_ref != db.users@[i].user_ref);
    }
}

/// The system-managed groups are invisible to generic group access: a
/// supergroup or admingroup never satisfies the visibility predicate the
/// generic read and patch operations check.
pub proof fn lemma_special_groups_hidden(db: &AuthDb, i: int)
    requires
        db.wf(),
        0 <= i < db.groups@.len(),
        !(db.groups@[i].group_type is Normal),
    ensures
        !crate::groups::internal::spec_visible_group(db, db.groups@[i].id),
{
    if crate::groups::internal::spec_visible_group(db, db.groups@[i].id) {
        let w = choose|w: int|
            0 <= w < db.groups@.len() && (#[trigger] db.groups@[w]).id == db.groups@[i].id
                && db.groups@[w].group_type is Normal;
        assert(w != i);
        assert(db.groups@[w].id != db.groups@[i].id);
    }
}

/// Round trip for users: an active external reference resolves to one
/// key, and that key carries no other reference, so encoding the
/// resolved key yields the original reference.
pub proof fn lemma_user_ref_round_trip(db: &AuthDb, r: UserRef, id: u64)
    requires
        db.wf(),
        crate::store::active_user_ref_resolves(db.users@, r, id),
    ensures
        forall|r2: UserRef| #[trigger]
            crate::store::active_user_ref_resolves(db.users@, r2, id) ==> r2 == r,
{
    let w = choose|w: int|
        0 <= w < db.users@.len() && (#[trigger] db.users@[w]).is_active() && db.users@[w].user_ref
            == r && db.users@[w].id == id;
    assert forall|r2: UserRef| #[trigger]
        crate::store::active_user_ref_resolves(db.users@, r2, id) implies r2 == r by {
        let v = choose|v: int|
            0 <= v < db.users@.len() && (#[trigger] db.users@[v]).is_active()
                && db.users@[v].user_ref == r2 && db.users@[v].id == id;
        if v != w {
            assert(db.users@[v].id != db.users@[w].id);
        }
    }
}

/// Round trip for tenants: the reference a tenant key resolves back to
/// is the reference that named it.
pub proof fn lemma_tenant_ref_round_trip(db: &AuthDb, r: TenantRef, id: u64)
    requires
        db.wf(),
        db.spec_tenant_ref_resolves_to(r, id),
    ensures
        forall|r2: TenantRef| #[trigger] db.spec_tenant_ref_resolves_to(r2, id) ==> r2 == r,
{
    let w = choose|w: int|
        0 <= w < db.tenants@.len() && (#[trigger] db.tenants@[w]).tenant_ref == r
            && db.tenants@[w].id == id;
    assert forall|r2: TenantRef| #[trigger]
        db.spec_tenant_ref_resolves_to(r2, id) implies r2 == r by {
        let v = choose|v: int|
            0 <= v < db.tenants@.len() && (#[trigger] db.tenants@[v]).tenant_ref == r2
                && db.tenants@[v].id == id;
        if v != w {
            assert(db.tenants@[v].id != db.tenants@[w].id);
        }
    }
}

/// Round trip for groups: the reference a group key resolves back to is
/// the reference that named it.
pub proof fn lemma_group_ref_round_trip(db: &AuthDb, r: GroupRef, id: u64)
    requires
        db.wf(),
        db.spec_group_ref_resolves_to(r, id),
    ensures
        forall|r2: GroupRef| #[trigger] db.spec_group_ref_resolves_to(r2, id) ==> r2 == r,
{
    let w = choose|w: int|
        0 <= w < db.groups@.len() && (#[trigger] db.groups@[w]).group_ref == r && db.groups@[w].id
            == id;
    assert forall|r2: GroupRef| #[trigger] db.spec_group_ref_resolves_to(r2, id) implies r2
        == r by {
        let v = choose|v: int|
            0 <= v < db.groups@.len() && (#[trigger] db.groups@[v]).group_ref == r2
                && db.groups@[v].id == id;
        if v != w {
            assert(db.groups@[v].id != db.groups@[w].id);
        }
    }
}

} // verus!
