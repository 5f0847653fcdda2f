//! Application users: their registration record and the role views of it.
use vstd::prelude::*;
use crate::error::GatewayError;
use crate::model::{clone_str, CkPublicKey, Email, Role, RoleSet, UserID};

verus! {

/// The registration record of an application user.
pub struct UserInfo {
    pub name: String,
    pub email: Email,
    pub roles: RoleSet,
    pub pub_key: CkPublicKey,
    pub user_id: UserID,
}

/// Maps a user id back to the user's email.
pub struct UidToEmail {
    pub user_id: UserID,
    pub email: Email,
}

impl UidToEmail {
    pub fn new(user_id: UserID, email: Email) -> (r: Self)
        ensures
            r.user_id == user_id,
            r.email == email,
    {
        UidToEmail { user_id, email }
    }

    pub fn email(&self) -> (r: Email)
        ensures
            r == self.email,
    {
        clone_str(&self.email)
    }
}

impl UserInfo {
    /// Field-wise equality of two records.
    pub open spec fn same_as(&self, other: &UserInfo) -> bool {
        &&& self.name@ == other.name@
        &&& self.email@ == other.email@
        &&& self.roles.0@ == other.roles.0@
        &&& self.pub_key.0@ == other.pub_key.0@
        &&& self.user_id@ == other.user_id@
    }

    /// A new user record. `user_id` is the id derived from `email`; the
    /// roles are kept once each.
    pub fn new(name: &str, email: Email, roles: &Vec<Role>, pub_key: CkPublicKey, user_id: UserID) -> (r: Self)
        ensures
            r.name@ == name@,
            r.email == email,
            r.roles.wf(),
            forall|x: Role| r.roles.has(x) <==> roles@.contains(x),
            r.pub_key == pub_key,
            r.user_id == user_id,
    {
        UserInfo {
            name: name.to_owned(),
            email,
            roles: RoleSet::from_roles(roles),
            pub_key,
            user_id,
        }
    }

    pub fn duplicate(&self) -> (r: Self)
        ensures
            r.same_as(self),
    {
        UserInfo {
            name: clone_str(&self.name),
            email: clone_str(&self.email),
            roles: self.roles.duplicate(),
            pub_key: self.pub_key.duplicate(),
            user_id: clone_str(&self.user_id),
        }
    }

    pub fn get_email(&self) -> (r: &Email)
        ensures
            r == &self.email,
    {
        &self.email
    }

    pub fn get_roles(&self) -> (r: &RoleSet)
        ensures
            r == &self.roles,
    {
        &self.roles
    }

    pub fn get_pub_key(&self) -> (r: &CkPublicKey)
        ensures
            r == &self.pub_key,
    {
        &self.pub_key
    }

    pub fn get_id(&self) -> (r: &UserID)
        ensures
            r == &self.user_id,
    {
        &self.user_id
    }

    pub fn get_name(&self) -> (r: &String)
        ensures
            r == &self.name,
    {
        &self.name
    }

    pub fn is_admin(&self) -> (r: bool)
        ensures
            r == self.roles.has(Role::Admin),
    {
        self.roles.contains(Role::Admin)
    }

    pub fn is_approver(&self) -> (r: bool)
        ensures
            r == self.roles.has(Role::Approver),
    {
        self.roles.contains(Role::Approver)
    }

    pub fn is_tx_operator(&self) -> (r: bool)
        ensures
            r == self.roles.has(Role::TxOperator),
    {
        self.roles.contains(Role::TxOperator)
    }

    pub fn is_viewer(&self) -> (r: bool)
        ensures
            r == self.roles.has(Role::Viewer),
    {
        self.roles.contains(Role::Viewer)
    }

    /// Adds `role` to the user's roles; nothing else changes.
    pub fn append_role(&mut self, role: Role)
        requires
            old(self).roles.wf(),
        ensures
            final(self).roles.wf(),
            forall|x: Role| final(self).roles.has(x) <==> (old(self).roles.has(x) || x == role),
            old(self).roles.has(role) ==> final(self).roles.0@ == old(self).roles.0@,
            !old(self).roles.has(role) ==> final(self).roles.0@ == old(self).roles.0@.push(role),
            final(self).name == old(self).name,
            final(self).email == old(self).email,
            final(self).pub_key == old(self).pub_key,
            final(self).user_id == old(self).user_id,
    {
        self.roles.insert(role);
    }
}

/// A user seen as an administrator.
pub struct Admin(pub UserInfo);

/// A user seen as an approver.
pub struct Approver(pub UserInfo);

/// A user seen as a transaction operator.
pub struct TxOperator(pub UserInfo);

/// A user seen as a viewer.
pub struct Viewer(pub UserInfo);

/// A user seen through the role that the gateway treats it under.
pub enum User {
    Admin(Admin),
    Approver(Approver),
    TxOperator(TxOperator),
    Viewer(Viewer),
}

impl Admin {
    /// The record as an administrator; fails unless the user holds the role.
    pub fn try_from_info(info: UserInfo) -> (r: Result<Admin, GatewayError>)
        ensures
            info.roles.has(Role::Admin) <==> r is Ok,
            r matches Ok(a) ==> a.0 == info,
            r matches Err(e) ==> e == GatewayError::NotAdmin,
    {
        if info.is_admin() {
            Ok(Admin(info))
        } else {
            Err(GatewayError::NotAdmin)
        }
    }
}

impl Approver {
    pub fn try_from_info(info: UserInfo) -> (r: Result<Approver, GatewayError>)
        ensures
            info.roles.has(Role::Approver) <==> r is Ok,
            r matches Ok(a) ==> a.0 == info,
            r matches Err(e) ==> e == GatewayError::NotApprover,
    {
        if info.is_approver() {
            Ok(Approver(info))
        } else {
            Err(GatewayError::NotApprover)
        }
    }
}

impl TxOperator {
    pub fn try_from_info(info: UserInfo) -> (r: Result<TxOperator, GatewayError>)
        ensures
            info.roles.has(Role::TxOperator) <==> r is Ok,
            r matches Ok(a) ==> a.0 == info,
            r matches Err(e) ==> e == GatewayError::NotTxOperator,
    {
        if info.is_tx_operator() {
            Ok(TxOperator(info))
        } else {
            Err(GatewayError::NotTxOperator)
        }
    }
}

impl Viewer {
    pub fn try_from_info(info: UserInfo) -> (r: Result<Viewer, GatewayError>)
        ensures
            info.roles.has(Role::Viewer) <==> r is Ok,
            r matches Ok(a) ==> a.0 == info,
            r matches Err(e) ==> e == GatewayError::NotViewer,
    {
        if info.is_viewer() {
            Ok(Viewer(info))
        } else {
            Err(GatewayError::NotViewer)
        }
    }
}

/// The role a user is treated under: transaction operator first, then
/// approver, administrator, viewer.
pub open spec fn primary_role(info: UserInfo) -> Option<Role> {
    if info.roles.has(Role::TxOperator) {
        Some(Role::TxOperator)
    } else if info.roles.has(Role::Approver) {
        Some(Role::Approver)
    } else if info.roles.has(Role::Admin) {
        Some(Role::Admin)
    } else if info.roles.has(Role::Viewer) {
        Some(Role::Viewer)
    } else {
        None
    }
}

impl User {
    pub open spec fn role(&self) -> Role {
        match self {
            User::Admin(_) => Role::Admin,
            User::Approver(_) => Role::Approver,
            User::TxOperator(_) => Role::TxOperator,
            User::Viewer(_) => Role::Viewer,
        }
    }

    pub open spec fn info_spec(&self) -> UserInfo {
        match self {
            User::Admin(a) => a.0,
            User::Approver(a) => a.0,
            User::TxOperator(a) => a.0,
            User::Viewer(a) => a.0,
        }
    }

    /// Views the record under its primary role; fails when the user holds
    /// no role.
    pub fn try_from_info(info: UserInfo) -> (r: Result<User, GatewayError>)
        ensures
            match primary_role(info) {
                Some(role) => r matches Ok(u) && u.role() == role && u.info_spec() == info,
                None => r == Err::<User, GatewayError>(GatewayError::UnknownRole),
            },
            r matches Ok(u) ==> info.roles.has(u.role()),
            !info.roles.has(Role::TxOperator) && info.roles.has(Role::Approver) ==> (r matches Ok(u) && u.role()
                == Role::Approver),
    {
        if info.is_tx_operator() {
            Ok(User::TxOperator(TxOperator(info)))
        } else if info.is_approver() {
            Ok(User::Approver(Approver(info)))
        } else if info.is_admin() {
            Ok(User::Admin(Admin(info)))
        } else if info.is_viewer() {
            Ok(User::Viewer(Viewer(info)))
        } else {
            Err(GatewayError::UnknownRole)
        }
    }

    pub fn get_info(&self) -> (r: &UserInfo)
        ensures
            *r == self.info_spec(),
    {
        match self {
            User::Admin(a) => &a.0,
            User::Approver(a) => &a.0,
            User::TxOperator(a) => &a.0,
            User::Viewer(a) => &a.0,
        }
    }

    pub fn is_tx_operator_user(&self) -> (r: bool)
        ensures
            r == (self.role() == Role::TxOperator),
    {
        match self {
            User::TxOperator(_) => true,
            _ => false,
        }
    }
}

} // verus!
