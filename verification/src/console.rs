//! Console users (the people who administer devices through the console)
//! and the files the console exports for them.
use vstd::prelude::*;
use crate::error::GatewayError;
use crate::model::{clone_str, Email, ADMIN_EMAIL};

verus! {

/// The role a console user acts in.
#[derive(Clone, Copy, Debug, PartialEq, Eq, Structural, Hash)]
pub enum ConsoleUserRole {
    Admin,
    DeviceOperator,
}

/// A person signed in to the console.
pub struct ConsoleUserInfo {
    pub email: Email,
}

/// A console user who is an administrator.
pub struct Admin(pub ConsoleUserInfo);

/// A console user who operates devices.
pub struct DeviceOperator(pub ConsoleUserInfo);

/// A console user in the role the console recognises.
pub enum ConsoleUser {
    Admin(Admin),
    DeviceOperator(DeviceOperator),
}

/// Whether `email` is one of the administrators' emails.
pub open spec fn is_admin_email(email: Seq<char>) -> bool {
    email == ADMIN_EMAIL@
}

impl ConsoleUserInfo {
    pub fn new(email: Email) -> (r: Self)
        ensures
            r.email == email,
    {
        ConsoleUserInfo { email }
    }

    /// Whether the user is an administrator: its email is an admin email.
    pub fn is_admin(&self) -> (r: bool)
        ensures
            r == is_admin_email(self.email@),
    {
        let admin = String::from_str(ADMIN_EMAIL);
        admin.eq(&self.email)
    }

    /// Whether the user operates devices: no console user does.
    pub fn is_device_operator(&self) -> (r: bool)
        ensures
            !r,
    {
        false
    }
}

impl Admin {
    /// The user as an administrator; fails for anyone else.
    pub fn try_from_info(user_info: ConsoleUserInfo) -> (r: Result<Admin, GatewayError>)
        ensures
            r is Ok <==> is_admin_email(user_info.email@),
            r matches Ok(a) ==> a.0 == user_info,
            r matches Err(e) ==> e == GatewayError::NotAdmin,
    {
        if user_info.is_admin() {
            Ok(Admin(user_info))
        } else {
            Err(GatewayError::NotAdmin)
        }
    }
}

impl DeviceOperator {
    /// The user as a device operator; fails for everyone, as no console
    /// user operates devices.
    pub fn try_from_info(user_info: ConsoleUserInfo) -> (r: Result<DeviceOperator, GatewayError>)
        ensures
            r == Err::<DeviceOperator, GatewayError>(GatewayError::NotDeviceOperator),
    {
        if user_info.is_device_operator() {
            Ok(DeviceOperator(user_info))
        } else {
            Err(GatewayError::NotDeviceOperator)
        }
    }
}

impl ConsoleUser {
    /// The user in its role: administrator first, then device operator;
    /// fails when it holds neither.
    pub fn try_from_info(user_info: ConsoleUserInfo) -> (r: Result<ConsoleUser, GatewayError>)
        ensures
            r is Ok <==> is_admin_email(user_info.email@),
            r matches Ok(u) ==> u == ConsoleUser::Admin(Admin(user_info)),
            r matches Err(e) ==> e == GatewayError::UnknownRole,
    {
        if user_info.is_admin() {
            Ok(ConsoleUser::Admin(Admin(user_info)))
        } else if user_info.is_device_operator() {
            Ok(ConsoleUser::DeviceOperator(DeviceOperator(user_info)))
        } else {
            Err(GatewayError::UnknownRole)
        }
    }

    pub fn get_info(&self) -> (r: &ConsoleUserInfo)
        ensures
            match self {
                ConsoleUser::Admin(a) => *r == a.0,
                ConsoleUser::DeviceOperator(d) => *r == d.0,
            },
    {
        match self {
            ConsoleUser::Admin(admin) => &admin.0,
            ConsoleUser::DeviceOperator(device_operator) => &device_operator.0,
        }
    }

    pub fn get_role(&self) -> (r: ConsoleUserRole)
        ensures
            r == (match self {
                ConsoleUser::Admin(_) => ConsoleUserRole::Admin,
                ConsoleUser::DeviceOperator(_) => ConsoleUserRole::DeviceOperator,
            }),
    {
        match self {
            ConsoleUser::Admin(_) => ConsoleUserRole::Admin,
            ConsoleUser::DeviceOperator(_) => ConsoleUserRole::DeviceOperator,
        }
    }
}

/// The console roles of the signed-in `email`: its one role, or none when
/// it is no console user.
pub fn console_roles(email: &Email) -> (r: Vec<ConsoleUserRole>)
    ensures
        is_admin_email(email@) ==> r@ == seq![ConsoleUserRole::Admin],
        !is_admin_email(email@) ==> r@.len() == 0,
{
    let mut roles: Vec<ConsoleUserRole> = Vec::new();
    match ConsoleUser::try_from_info(ConsoleUserInfo::new(clone_str(email))) {
        Ok(user) => {
            roles.push(user.get_role());
            proof {
                assert(roles@ =~= seq![ConsoleUserRole::Admin]);
            }
        },
        Err(_) => {},
    }
    roles
}

} // verus!
