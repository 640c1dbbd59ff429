//! Who may see what: a role is asked for, and the request either carries it or does
//! not. How a request comes by its role is the caller's business.
use crate::order::text_eq;
use vstd::prelude::*;

verus! {

/// A role that a request can carry.
#[derive(Clone, Copy, Debug, PartialEq, Eq, Structural)]
pub enum Role {
    Admin,
    Reader,
}

/// The answer of a guard that lets a request not pass.
#[derive(Clone, Copy, Debug, PartialEq, Eq, Structural)]
pub struct Forbidden;

/// The fields of a merchant record that a guard stands before.
#[derive(Clone, Copy, Debug, PartialEq, Eq, Structural)]
pub enum MerchantField {
    Id,
    Name,
    FoundedDate,
    Industry,
    VatNumber,
    CreatedAt,
    MerchantLevel,
    SubMerchants,
    HasSettlementPermissions,
    HasBillingPermissions,
}

/// The role of a name, if it is one.
pub open spec fn role_named(s: Seq<char>) -> Option<Role> {
    if s == "Admin"@ {
        Some(Role::Admin)
    } else if s == "Reader"@ {
        Some(Role::Reader)
    } else {
        None
    }
}

/// The role that a configured name stands for, if there is a name and it is one.
pub open spec fn configured_role(name: Option<Seq<char>>) -> Option<Role> {
    match name {
        Some(s) => role_named(s),
        None => None,
    }
}

/// Whether a request passes a guard that asks for `wanted`: the request carries that
/// role, or the configuration names it.
pub open spec fn passes(wanted: Role, carried: Option<Role>, configured: Option<Seq<char>>) -> bool {
    carried == Some(wanted) || configured_role(configured) == Some(wanted)
}

/// Whether a request may see a field of a merchant: an administrator sees every
/// field, a reader every field but the VAT number.
pub open spec fn may_see(
    field: MerchantField,
    carried: Option<Role>,
    configured: Option<Seq<char>>,
) -> bool {
    passes(Role::Admin, carried, configured) || (field != MerchantField::VatNumber && passes(
        Role::Reader,
        carried,
        configured,
    ))
}

impl Role {
    /// The role with the given name.
    pub fn from_name(s: &str) -> (r: Option<Role>)
        ensures
            r == role_named(s@),
    {
        if text_eq(s, "Admin") {
            Some(Role::Admin)
        } else if text_eq(s, "Reader") {
            Some(Role::Reader)
        } else {
            None
        }
    }
}

/// A guard that asks for one role.
#[derive(Clone, Copy, Debug)]
pub struct RoleGuard {
    pub role: Role,
}

impl RoleGuard {
    /// A guard that asks for `role`.
    pub fn new(role: Role) -> (g: Self)
        ensures
            g.role == role,
    {
        Self { role }
    }

    /// Lets a request pass or not. `carried` is the role that the request carries,
    /// `configured` the name of the role that the configuration gives to every
    /// request.
    pub fn check(&self, carried: Option<Role>, configured: Option<&str>) -> (r: Result<
        (),
        Forbidden,
    >)
        ensures
            r is Ok <==> passes(
                self.role,
                carried,
                match configured {
                    Some(s) => Some(s@),
                    None => None,
                },
            ),
    {
        let by_request = match carried {
            Some(role) => role == self.role,
            None => false,
        };
        let by_configuration = match configured {
            Some(name) => match Role::from_name(name) {
                Some(role) => role == self.role,
                None => false,
            },
            None => false,
        };
        if by_request || by_configuration {
            Ok(())
        } else {
            Err(Forbidden)
        }
    }
}

/// Decides whether a request may see a field of a merchant.
pub fn merchant_field_allowed(
    field: MerchantField,
    carried: Option<Role>,
    configured: Option<&str>,
) -> (r: bool)
    ensures
        r == may_see(
            field,
            carried,
            match configured {
                Some(s) => Some(s@),
                None => None,
            },
        ),
{
    let admin = RoleGuard::new(Role::Admin).check(carried, configured).is_ok();
    let reader = RoleGuard::new(Role::Reader).check(carried, configured).is_ok();
    admin || (field != MerchantField::VatNumber && reader)
}

} // verus!
