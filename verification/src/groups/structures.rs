//! Group payloads: the creation request, the raw stored shape, and the
//! group type that separates user-managed groups from system-managed ones.

use vstd::prelude::*;
use crate::entities::{Group, GroupRef, TenantRef};

verus! {

/// Payload for creating a normal group within a tenant.
#[derive(Clone, Debug)]
pub struct CreateGroup {
    pub name: String,
    pub tenant: TenantRef,
}

impl CreateGroup {
    /// The creation payload a given group view corresponds to.
    pub fn from_group(g: Group) -> (r: CreateGroup)
        ensures
            r.name == g.name,
            r.tenant == g.tenant,
    {
        CreateGroup { name: g.name, tenant: g.tenant }
    }
}

/// A group name is valid when its byte length is between 1 and 45.
pub open spec fn spec_valid_group_name(name: Seq<char>) -> bool {
    0 < vstd::utf8::encode_utf8(name).len() <= 45
}

/// Reject empty or overlong group names.
pub fn validate_create_group(group: &CreateGroup) -> (r: Result<(), &'static str>)
    ensures
        r is Ok <==> spec_valid_group_name(group.name@),
        vstd::utf8::encode_utf8(group.name@).len() == 0 ==> (r matches Err(m) && m@
            == "Group name cannot be empty"@),
        vstd::utf8::encode_utf8(group.name@).len() > 45 ==> (r matches Err(m) && m@
            == "Group name cannot be longer than 45 characters"@),
{
    let n = group.name.as_str().as_bytes().len();
    if n == 0 {
        Err("Group name cannot be empty")
    } else if n > 45 {
        Err("Group name cannot be longer than 45 characters")
    } else {
        Ok(())
    }
}

/// A stored group as the store keeps it: system-managed groups carry no
/// name, so the name is optional here.
#[derive(Clone, Debug)]
pub struct RawGroup {
    pub group_ref: GroupRef,
    pub group_type: GroupType,
    pub name: Option<String>,
    pub tenant: TenantRef,
}

impl RawGroup {
    /// The public view of a normal group.  System-managed groups have no
    /// name, so only normal groups may be converted.
    pub fn into_group(self) -> (r: Group)
        requires
            self.name is Some,
        ensures
            r.group_ref == self.group_ref,
            r.name == self.name->0,
            r.tenant == self.tenant,
    {
        let name = match self.name {
            Some(n) => n,
            None => String::new(),
        };
        Group { group_ref: self.group_ref, name, tenant: self.tenant }
    }
}

/// The character sequence a patched group name ends up with: the patch's
/// value when present, the stored one otherwise.
pub open spec fn spec_patched_group_name(field: Option<String>, stored: Option<String>) -> Seq<
    char,
> {
    if field is Some {
        field->0@
    } else {
        stored->0@
    }
}

/// A partial update of a group.  Only the name may change;
/// `tenant_present` records that the caller tried to change the owning
/// tenant, which the patch endpoint always rejects.
#[derive(Clone, Debug)]
pub struct GroupPatch {
    pub name: Option<String>,
    pub tenant_present: bool,
}

/// Whether a group is user-managed (`Normal`) or one of the two
/// system-managed groups every tenant owns.
#[derive(Clone, Copy, PartialEq, Eq, Structural, Debug)]
pub enum GroupType {
    Normal,
    SuperGroup,
    AdminGroup,
}

} // verus!
