//! The registry of application users: their records keyed by email, and
//! the map from user id back to email.
use vstd::prelude::*;
use crate::error::GatewayError;
use crate::model::{clone_bytes, clone_str, CkPublicKey, Email, Role, UserID};
use crate::table::Table;
use crate::user_info::{primary_role, UidToEmail, User, UserInfo};

verus! {

pub struct UserRegistry {
    users: Table<UserInfo>,
    uid_to_email: Table<UidToEmail>,
}

impl UserRegistry {
    /// Every record is stored under its own email, with a duplicate-free
    /// role list; every id entry under its own user id.
    #[verifier::type_invariant]
    closed spec fn wf(self) -> bool {
        &&& self.users.key_seq().no_duplicates()
        &&& self.uid_to_email.key_seq().no_duplicates()
        &&& forall|k: Seq<char>| #[trigger] self.users.map().contains_key(k) ==> {
            &&& self.users.map()[k].email@ == k
            &&& self.users.map()[k].roles.wf()
        }
        &&& forall|k: Seq<char>| #[trigger] self.uid_to_email.map().contains_key(k)
            ==> self.uid_to_email.map()[k].user_id@ == k
    }

    /// The user records, keyed by email.
    pub closed spec fn users(&self) -> Map<Seq<char>, UserInfo> {
        self.users.map()
    }

    /// The user records in registration order.
    pub closed spec fn user_seq(&self) -> Seq<UserInfo> {
        self.users.value_seq()
    }

    /// The id-to-email entries, keyed by user id.
    pub closed spec fn uids(&self) -> Map<Seq<char>, UidToEmail> {
        self.uid_to_email.map()
    }

    /// An empty registry.
    pub fn init() -> (r: Self)
        ensures
            r.users() == Map::<Seq<char>, UserInfo>::empty(),
            r.uids() == Map::<Seq<char>, UidToEmail>::empty(),
    {
        let r = UserRegistry { users: Table::new(), uid_to_email: Table::new() };
        proof {
            assert(r.users.map() =~= Map::<Seq<char>, UserInfo>::empty());
            assert(r.uid_to_email.map() =~= Map::<Seq<char>, UidToEmail>::empty());
        }
        r
    }

    pub fn user_exist(&self, email: &Email) -> (r: bool)
        ensures
            r == self.users().contains_key(email@),
    {
        self.users.contains_key(email)
    }

    /// A copy of the record of `email`.
    pub fn get_info(&self, email: &Email) -> (r: Result<UserInfo, GatewayError>)
        ensures
            self.users().contains_key(email@) <==> r is Ok,
            r matches Ok(info) ==> info.same_as(&self.users()[email@]),
            r matches Err(e) ==> e == GatewayError::UserNotFound,
    {
        match self.users.get(email) {
            Some(info) => Ok(info.duplicate()),
            None => Err(GatewayError::UserNotFound),
        }
    }

    /// The public key of `email`.
    pub fn get_user_public_key(&self, email: &Email) -> (r: Result<CkPublicKey, GatewayError>)
        ensures
            self.users().contains_key(email@) <==> r is Ok,
            r matches Ok(k) ==> k.0@ == self.users()[email@].pub_key.0@,
            r matches Err(e) ==> e == GatewayError::UserNotFound,
    {
        match self.users.get(email) {
            Some(info) => Ok(CkPublicKey(clone_bytes(&info.pub_key.0))),
            None => Err(GatewayError::UserNotFound),
        }
    }

    /// The roles of `email`.
    pub fn get_roles(&self, email: &Email) -> (r: Result<Vec<Role>, GatewayError>)
        ensures
            self.users().contains_key(email@) <==> r is Ok,
            r matches Ok(roles) ==> roles@ == self.users()[email@].roles.0@,
            r matches Err(e) ==> e == GatewayError::UserNotFound,
    {
        match self.users.get(email) {
            Some(info) => Ok(info.roles.duplicate().0),
            None => Err(GatewayError::UserNotFound),
        }
    }

    /// The record of `email` seen under its primary role.
    pub fn get(&self, email: &Email) -> (r: Result<User, GatewayError>)
        ensures
            !self.users().contains_key(email@) ==> r == Err::<User, GatewayError>(
                GatewayError::UserNotFound,
            ),
            self.users().contains_key(email@) ==> match primary_role(self.users()[email@]) {
                Some(role) => r matches Ok(u) && u.role() == role && u.info_spec().same_as(
                    &self.users()[email@],
                ),
                None => r == Err::<User, GatewayError>(GatewayError::UnknownRole),
            },
    {
        match self.users.get(email) {
            Some(info) => {
                let copy = info.duplicate();
                proof {
                    assert(forall|x: Role| copy.roles.has(x) == info.roles.has(x));
                }
                User::try_from_info(copy)
            },
            None => Err(GatewayError::UserNotFound),
        }
    }

    /// The first registered user whose id is `id`.
    pub fn get_user_info_by_id(&self, id: &UserID) -> (r: Result<UserInfo, GatewayError>)
        ensures
            r is Ok <==> exists|i: int|
                0 <= i < self.user_seq().len() && #[trigger] self.user_seq()[i].user_id@ == id@,
            r matches Ok(info) ==> exists|i: int|
                0 <= i < self.user_seq().len() && self.user_seq()[i].user_id@ == id@ && info.same_as(
                    &self.user_seq()[i],
                ) && forall|j: int| 0 <= j < i ==> #[trigger] self.user_seq()[j].user_id@ != id@,
            r matches Err(e) ==> e == GatewayError::UserNotFound,
    {
        let mut i: usize = 0;
        while i < self.users.len()
            invariant
                i <= self.user_seq().len(),
                forall|j: int| 0 <= j < i ==> #[trigger] self.user_seq()[j].user_id@ != id@,
            decreases self.user_seq().len() - i,
        {
            let (_k, info) = self.users.entry(i);
            if info.user_id.eq(id) {
                let copy = info.duplicate();
                proof {
                    assert(self.user_seq()[i as int].user_id@ == id@);
                    assert(copy.same_as(&self.user_seq()[i as int]));
                }
                return Ok(copy);
            }
            i = i + 1;
        }
        proof {
            assert(forall|j: int| 0 <= j < self.user_seq().len() ==> #[trigger] self.user_seq()[j].user_id@ != id@);
        }
        Err(GatewayError::UserNotFound)
    }

    /// The email recorded for the user id `user_id`.
    pub fn email_of_uid(&self, user_id: &UserID) -> (r: Option<Email>)
        ensures
            r is Some <==> self.uids().contains_key(user_id@),
            r matches Some(e) ==> e@ == self.uids()[user_id@].email@,
    {
        match self.uid_to_email.get(user_id) {
            Some(entry) => Some(clone_str(&entry.email)),
            None => None,
        }
    }

    /// Copies of all user records, in registration order.
    pub fn get_all_info(&self) -> (r: Vec<UserInfo>)
        ensures
            r@.len() == self.user_seq().len(),
            forall|i: int| 0 <= i < r@.len() ==> (#[trigger] r@[i]).same_as(&self.user_seq()[i]),
    {
        let mut out: Vec<UserInfo> = Vec::new();
        let mut i: usize = 0;
        while i < self.users.len()
            invariant
                i <= self.user_seq().len(),
                out@.len() == i,
                forall|j: int| 0 <= j < i ==> (#[trigger] out@[j]).same_as(&self.user_seq()[j]),
            decreases self.user_seq().len() - i,
        {
            let (_k, info) = self.users.entry(i);
            out.push(info.duplicate());
            i = i + 1;
        }
        out
    }

    /// Copies of the records of all transaction operators, in registration
    /// order.
    pub fn tx_operators(&self) -> (r: Vec<UserInfo>)
        ensures
            r@.len() == self.user_seq().filter(|u: UserInfo| u.roles.has(Role::TxOperator)).len(),
            forall|i: int| 0 <= i < r@.len() ==> (#[trigger] r@[i]).same_as(
                &self.user_seq().filter(|u: UserInfo| u.roles.has(Role::TxOperator))[i],
            ),
    {
        let ghost pred = |u: UserInfo| u.roles.has(Role::TxOperator);
        let mut out: Vec<UserInfo> = Vec::new();
        let mut i: usize = 0;
        while i < self.users.len()
            invariant
                i <= self.user_seq().len(),
                pred == (|u: UserInfo| u.roles.has(Role::TxOperator)),
                out@.len() == self.user_seq().take(i as int).filter(pred).len(),
                forall|j: int| 0 <= j < out@.len() ==> (#[trigger] out@[j]).same_as(
                    &self.user_seq().take(i as int).filter(pred)[j],
                ),
            decreases self.user_seq().len() - i,
        {
            let (_k, info) = self.users.entry(i);
            proof {
                let s = self.user_seq().take(i as int + 1);
                assert(s.drop_last() =~= self.user_seq().take(i as int));
                assert(s.last() == self.user_seq()[i as int]);
                reveal(Seq::filter);
            }
            if info.is_tx_operator() {
                out.push(info.duplicate());
            }
            i = i + 1;
        }
        proof {
            assert(self.user_seq().take(self.user_seq().len() as int) =~= self.user_seq());
        }
        out
    }

    /// Registers a user under `user_email` with the given name, roles (kept
    /// once each), public key and id; fails when the email is registered.
    /// Also records the id-to-email entry.
    pub fn add_user(
        &mut self,
        user_name: &str,
        user_email: &Email,
        user_roles: &Vec<Role>,
        public_key: CkPublicKey,
        user_id: UserID,
    ) -> (r: Result<UserInfo, GatewayError>)
        ensures
            old(self).users().contains_key(user_email@) <==> r is Err,
            r matches Err(e) ==> e == GatewayError::UserAlreadyExists && final(self).users() == old(
                self,
            ).users() && final(self).uids() == old(self).uids(),
            r matches Ok(info) ==> {
                let stored = final(self).users()[user_email@];
                &&& final(self).users() == old(self).users().insert(user_email@, stored)
                &&& info.same_as(&stored)
                &&& stored.name@ == user_name@
                &&& stored.email@ == user_email@
                &&& (forall|x: Role| stored.roles.has(x) <==> user_roles@.contains(x))
                &&& stored.pub_key == public_key
                &&& stored.user_id == user_id
                &&& final(self).uids().contains_key(user_id@)
                &&& final(self).uids()[user_id@].email@ == user_email@
                &&& final(self).uids().remove(user_id@) == old(self).uids().remove(user_id@)
            },
    {
        proof {
            use_type_invariant(&*self);
        }
        if self.users.contains_key(user_email) {
            return Err(GatewayError::UserAlreadyExists);
        }
        let ghost uid = user_id@;
        let info = UserInfo::new(user_name, clone_str(user_email), user_roles, public_key, user_id);
        let result = info.duplicate();
        let uid_entry = UidToEmail::new(clone_str(&info.user_id), clone_str(user_email));
        let mut users = Table::new();
        std::mem::swap(&mut users, &mut self.users);
        let ghost before_users = users.map();
        users.insert(clone_str(user_email), info);
        let mut uids = Table::new();
        std::mem::swap(&mut uids, &mut self.uid_to_email);
        let ghost before_uids = uids.map();
        uids.insert(clone_str(&uid_entry.user_id), uid_entry);
        proof {
            assert forall|k: Seq<char>| #[trigger] users.map().contains_key(k) implies {
                &&& users.map()[k].email@ == k
                &&& users.map()[k].roles.wf()
            } by {
                if k != user_email@ {
                    assert(before_users.contains_key(k));
                }
            }
            assert forall|k: Seq<char>| #[trigger] uids.map().contains_key(k) implies uids.map()[k].user_id@ == k by {
                if k != uid {
                    assert(before_uids.contains_key(k));
                }
            }
        }
        self.users = users;
        self.uid_to_email = uids;
        proof {
            assert(self.uid_to_email.map().remove(uid) =~= before_uids.remove(uid));
        }
        Ok(result)
    }

    /// Adds each of `roles` to the user's roles and returns the updated
    /// record; fails when the user is not registered.
    pub fn append_role(&mut self, email: &Email, roles: &Vec<Role>) -> (r: Result<UserInfo, GatewayError>)
        ensures
            old(self).users().contains_key(email@) <==> r is Ok,
            r matches Err(e) ==> e == GatewayError::UserNotFound && final(self).users() == old(
                self,
            ).users(),
            r matches Ok(info) ==> {
                let before = old(self).users()[email@];
                let stored = final(self).users()[email@];
                &&& final(self).users() == old(self).users().insert(email@, stored)
                &&& info.same_as(&stored)
                &&& (forall|x: Role| stored.roles.has(x) <==> before.roles.has(x) || roles@.contains(x))
                &&& stored.name@ == before.name@
                &&& stored.email@ == before.email@
                &&& stored.pub_key.0@ == before.pub_key.0@
                &&& stored.user_id@ == before.user_id@
            },
            final(self).uids() == old(self).uids(),
    {
        proof {
            use_type_invariant(&*self);
        }
        let mut info = match self.users.get(email) {
            Some(info) => info.duplicate(),
            None => {
                return Err(GatewayError::UserNotFound);
            },
        };
        let ghost before = self.users.at(email@);
        proof {
            assert(self.users.map().contains_key(email@));
            assert(self.users.map()[email@] == before);
        }
        let mut i: usize = 0;
        while i < roles.len()
            invariant
                i <= roles@.len(),
                info.roles.wf(),
                info.name@ == before.name@,
                info.email@ == before.email@,
                info.email@ == email@,
                info.pub_key.0@ == before.pub_key.0@,
                info.user_id@ == before.user_id@,
                forall|x: Role| info.roles.has(x) <==> before.roles.has(x) || roles@.take(i as int).contains(x),
            decreases roles@.len() - i,
        {
            info.append_role(roles[i]);
            proof {
                let t = roles@.take(i as int + 1);
                assert(t =~= roles@.take(i as int).push(roles@[i as int]));
                assert forall|x: Role| roles@.take(i as int + 1).contains(x) <==> roles@.take(i as int).contains(x) || x == roles@[i as int] by {
                    if t.contains(x) && x != roles@[i as int] {
                        let k = choose|k: int| 0 <= k < t.len() && t[k] == x;
                        assert(roles@.take(i as int)[k] == x);
                    }
                    if roles@.take(i as int).contains(x) {
                        let k = choose|k: int| 0 <= k < i && roles@.take(i as int)[k] == x;
                        assert(t[k] == x);
                    }
                    if x == roles@[i as int] {
                        assert(t[i as int] == x);
                    }
                }
            }
            i = i + 1;
        }
        proof {
            assert(roles@.take(roles@.len() as int) =~= roles@);
        }
        let result = info.duplicate();
        let mut users = Table::new();
        std::mem::swap(&mut users, &mut self.users);
        let ghost before_users = users.map();
        users.insert(clone_str(email), info);
        proof {
            assert forall|k: Seq<char>| #[trigger] users.map().contains_key(k) implies {
                &&& users.map()[k].email@ == k
                &&& users.map()[k].roles.wf()
            } by {
                if k != email@ {
                    assert(before_users.contains_key(k));
                }
            }
        }
        self.users = users;
        Ok(result)
    }
}

} // verus!
