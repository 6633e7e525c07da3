//! Who may change policies, reset statistics and set the trusted tenant.

use vstd::prelude::*;

use crate::errors;
use crate::errors::{PwbError, PwbErrorView, PwbResult};
use crate::text;

verus! {

pub const ADMIN_ROLE: &'static str = "pwb_admin";

pub const TENANT_SETTER_ROLE: &'static str = "pwb_tenant_setter";

#[derive(Debug, Clone, Copy, PartialEq, Eq, Structural)]
pub enum PrivilegeGate {
    Admin,
    TenantSetter,
}

/// The user that an operation is run for, even where it runs with the rights of another.
#[derive(Debug, Clone, PartialEq, Eq)]
pub struct InvokingUser {
    pub is_superuser: bool,
    /// The roles whose privileges the user has.
    pub roles: Vec<String>,
}

impl InvokingUser {
    /// Whether the user has the privileges of a role.
    pub open spec fn has_role(self, role: Seq<char>) -> bool {
        exists|i: int| 0 <= i < self.roles@.len() && (#[trigger] self.roles@[i])@ == role
    }

    fn has_privileges_of(&self, role: &str) -> (r: bool)
        ensures
            r == self.has_role(role@),
    {
        let mut i: usize = 0;
        while i < self.roles.len()
            invariant
                i <= self.roles@.len(),
                forall|j: int| 0 <= j < i ==> (#[trigger] self.roles@[j])@ != role@,
            decreases self.roles@.len() - i,
        {
            if text::str_eq(self.roles[i].as_str(), role) {
                return true;
            }
            i += 1;
        }
        false
    }
}

impl PrivilegeGate {
    /// The roles whose members meet the requirement.
    pub open spec fn roles(self) -> Seq<Seq<char>> {
        match self {
            PrivilegeGate::Admin => seq![ADMIN_ROLE@],
            PrivilegeGate::TenantSetter => seq![ADMIN_ROLE@, TENANT_SETTER_ROLE@],
        }
    }

    /// Whether a user meets the requirement: superusers do, and those with the privileges of one of its roles.
    pub open spec fn admits(self, user: InvokingUser) -> bool {
        ||| user.is_superuser
        ||| exists|i: int| 0 <= i < self.roles().len() && user.has_role(#[trigger] self.roles()[i])
    }

    pub fn role_names(self) -> (r: Vec<&'static str>)
        ensures
            r@.len() == self.roles().len(),
            forall|i: int| 0 <= i < r@.len() ==> (#[trigger] r@[i])@ == self.roles()[i],
    {
        match self {
            PrivilegeGate::Admin => vec![ADMIN_ROLE],
            PrivilegeGate::TenantSetter => vec![ADMIN_ROLE, TENANT_SETTER_ROLE],
        }
    }
}

pub fn invoking_user_is_superuser_or_member_of(
    user: &InvokingUser,
    role_names: &[&'static str],
) -> (r: bool)
    ensures
        r == (user.is_superuser || exists|i: int|
            0 <= i < role_names@.len() && user.has_role((#[trigger] role_names@[i])@)),
{
    if user.is_superuser {
        return true;
    }
    let mut i: usize = 0;
    while i < role_names.len()
        invariant
            i <= role_names@.len(),
            !user.is_superuser,
            forall|j: int| 0 <= j < i ==> !user.has_role((#[trigger] role_names@[j])@),
        decreases role_names@.len() - i,
    {
        if user.has_privileges_of(role_names[i]) {
            return true;
        }
        i += 1;
    }
    false
}

pub fn require(gate: PrivilegeGate, operation: &'static str, user: &InvokingUser) -> (r: PwbResult<
    (),
>)
    ensures
        errors::same_result(
            r,
            if gate.admits(*user) {
                Ok(())
            } else {
                Err(PwbErrorView::InsufficientPrivilege { operation: operation@ })
            },
        ),
{
    let role_names = gate.role_names();
    if invoking_user_is_superuser_or_member_of(user, role_names.as_slice()) {
        proof {
            if !user.is_superuser {
                let i = choose|i: int|
                    0 <= i < role_names@.len() && user.has_role((#[trigger] role_names@[i])@);
                assert(user.has_role(gate.roles()[i]));
            }
        }
        Ok(())
    } else {
        assert forall|i: int| 0 <= i < gate.roles().len() implies !user.has_role(
            #[trigger] gate.roles()[i],
        ) by {
            assert(role_names@[i]@ == gate.roles()[i]);
        }
        Err(PwbError::InsufficientPrivilege { operation })
    }
}

/// Whoever may administer may also set the tenant.
pub proof fn law_admins_may_set_tenants(user: InvokingUser)
    requires
        PrivilegeGate::Admin.admits(user),
    ensures
        PrivilegeGate::TenantSetter.admits(user),
{
    if !user.is_superuser {
        assert(PrivilegeGate::Admin.roles()[0] == PrivilegeGate::TenantSetter.roles()[0]);
        assert(user.has_role(PrivilegeGate::TenantSetter.roles()[0]));
    }
}

/// Only superusers and those with the privileges of `pwb_admin` may administer; these and those with the
/// privileges of `pwb_tenant_setter` may set tenants. No other role gives either right.
pub proof fn law_rights_come_from_two_roles(user: InvokingUser)
    ensures
        PrivilegeGate::Admin.admits(user) <==> user.is_superuser || exists|i: int|
            0 <= i < user.roles@.len() && (#[trigger] user.roles@[i])@ == "pwb_admin"@,
        PrivilegeGate::TenantSetter.admits(user) <==> user.is_superuser || exists|i: int|
            0 <= i < user.roles@.len() && ((#[trigger] user.roles@[i])@ == "pwb_admin"@
                || user.roles@[i]@ == "pwb_tenant_setter"@),
{
    let admin = PrivilegeGate::Admin.roles();
    let setter = PrivilegeGate::TenantSetter.roles();
    assert(admin[0] == "pwb_admin"@);
    assert(setter[0] == "pwb_admin"@ && setter[1] == "pwb_tenant_setter"@);
    if exists|i: int| 0 <= i < user.roles@.len() && (#[trigger] user.roles@[i])@ == "pwb_admin"@ {
        assert(user.has_role(admin[0]) && user.has_role(setter[0]));
    }
    if exists|i: int|
        0 <= i < user.roles@.len() && (#[trigger] user.roles@[i])@ == "pwb_tenant_setter"@ {
        assert(user.has_role(setter[1]));
    }
}

} // verus!
