//! Identifiers, keys, roles and the approval/operator/viewer lists that the
//! records of the gateway are built from.
use vstd::prelude::*;
use crate::strs::{contains_str, push_unique, view_set, views};

verus! {

/// A user's email address; it identifies application users.
pub type Email = String;

/// Identifier of a registered TEE device.
pub type DeviceID = String;

/// Identifier of a wallet.
pub type WalletID = String;

/// Identifier of an application user.
pub type UserID = String;

/// Identifier of an on-chain account.
pub type AccountId = String;

/// Identifier of a transaction.
pub type TransactionID = String;

/// Email of the built-in console administrator.
pub const ADMIN_EMAIL: &'static str = "admin@ck.com";

/// Most wallets (created plus backed up) that one device may hold.
pub const MAX_WALLET_NUM_PER_DEVICE: usize = 10;

/// A public key, as raw bytes.
pub struct CkPublicKey(pub Vec<u8>);

/// A private key, as raw bytes.
pub struct CkPrivateKey(pub Vec<u8>);

/// A signature (or signed payload), as raw bytes.
pub struct CkSignature(pub Vec<u8>);

pub fn clone_bytes(v: &Vec<u8>) -> (r: Vec<u8>)
    ensures
        r@ == v@,
{
    let r = v.clone();
    proof {
        assert(r@ =~= v@);
    }
    r
}

pub fn clone_str(s: &String) -> (r: String)
    ensures
        r@ == s@,
        r == *s,
{
    s.clone()
}

pub fn clone_strs(v: &Vec<String>) -> (r: Vec<String>)
    ensures
        r@ == v@,
{
    let r = v.clone();
    proof {
        assert forall|i: int| 0 <= i < v@.len() implies r@[i] == v@[i] by {
            assert(cloned::<String>(v[i], r[i]));
        }
        assert(r@ =~= v@);
    }
    r
}

impl CkPublicKey {
    pub fn duplicate(&self) -> (r: Self)
        ensures
            r.0@ == self.0@,
    {
        CkPublicKey(clone_bytes(&self.0))
    }
}

impl CkSignature {
    pub fn duplicate(&self) -> (r: Self)
        ensures
            r.0@ == self.0@,
    {
        CkSignature(clone_bytes(&self.0))
    }
}

/// The roles an application user can hold.
#[derive(Clone, Copy, Debug, PartialEq, Eq, Structural, Hash)]
pub enum Role {
    Admin,
    Approver,
    TxOperator,
    Viewer,
}

/// The roles of a user; no role occurs twice.
pub struct RoleSet(pub Vec<Role>);

impl RoleSet {
    pub open spec fn wf(&self) -> bool {
        self.0@.no_duplicates()
    }

    pub open spec fn has(&self, role: Role) -> bool {
        self.0@.contains(role)
    }

    pub fn empty() -> (r: Self)
        ensures
            r.0@ == Seq::<Role>::empty(),
            r.wf(),
    {
        RoleSet(Vec::new())
    }

    /// The set holding the given roles, each once, in order of first
    /// occurrence.
    pub fn from_roles(roles: &Vec<Role>) -> (r: Self)
        ensures
            r.wf(),
            forall|x: Role| r.has(x) <==> roles@.contains(x),
    {
        let mut r = RoleSet::empty();
        let mut i: usize = 0;
        while i < roles.len()
            invariant
                i <= roles@.len(),
                r.wf(),
                forall|x: Role| r.has(x) <==> roles@.take(i as int).contains(x),
            decreases roles@.len() - i,
        {
            proof {
                assert(roles@.take(i as int + 1) =~= roles@.take(i as int).push(roles@[i as int]));
            }
            r.insert(roles[i]);
            proof {
                assert forall|x: Role| r.has(x) <==> roles@.take(i as int + 1).contains(x) by {
                    let t = roles@.take(i as int + 1);
                    if x == roles@[i as int] {
                        assert(t[i as int] == x);
                    } else if roles@.take(i as int).contains(x) {
                        let k = choose|k: int| 0 <= k < i && roles@.take(i as int)[k] == x;
                        assert(t[k] == x);
                    } else if t.contains(x) {
                        let k = choose|k: int| 0 <= k < t.len() && t[k] == x;
                        assert(k < i);
                        assert(roles@.take(i as int)[k] == x);
                    }
                }
            }
            i = i + 1;
        }
        proof {
            assert(roles@.take(roles@.len() as int) =~= roles@);
        }
        r
    }

    pub fn contains(&self, role: Role) -> (r: bool)
        ensures
            r == self.has(role),
    {
        let mut i: usize = 0;
        while i < self.0.len()
            invariant
                i <= self.0@.len(),
                forall|j: int| 0 <= j < i ==> self.0@[j] != role,
            decreases self.0@.len() - i,
        {
            if self.0[i] == role {
                return true;
            }
            i = i + 1;
        }
        false
    }

    /// Adds `role` unless it is already held.
    pub fn insert(&mut self, role: Role)
        requires
            old(self).wf(),
        ensures
            final(self).wf(),
            old(self).has(role) ==> final(self).0@ == old(self).0@,
            !old(self).has(role) ==> final(self).0@ == old(self).0@.push(role),
            forall|x: Role| final(self).has(x) <==> (old(self).has(x) || x == role),
    {
        if !self.contains(role) {
            self.0.push(role);
            proof {
                assert forall|x: Role| self.has(x) <==> (old(self).has(x) || x == role) by {
                    if self.has(x) && x != role {
                        let k = choose|k: int| 0 <= k < self.0@.len() && self.0@[k] == x;
                        assert(old(self).0@[k] == x);
                    }
                    if old(self).has(x) {
                        let k = choose|k: int| 0 <= k < old(self).0@.len() && old(self).0@[k] == x;
                        assert(self.0@[k] == x);
                    }
                    if x == role {
                        assert(self.0@[self.0@.len() - 1] == x);
                    }
                }
            }
        }
    }

    pub fn duplicate(&self) -> (r: Self)
        ensures
            r.0@ == self.0@,
    {
        let mut v: Vec<Role> = Vec::new();
        let mut i: usize = 0;
        while i < self.0.len()
            invariant
                i <= self.0@.len(),
                v@ == self.0@.take(i as int),
            decreases self.0@.len() - i,
        {
            v.push(self.0[i]);
            proof {
                assert(self.0@.take(i as int + 1) =~= self.0@.take(i as int).push(self.0@[i as int]));
            }
            i = i + 1;
        }
        proof {
            assert(self.0@.take(self.0@.len() as int) =~= self.0@);
        }
        RoleSet(v)
    }
}

/// One stage of an approval chain: who may approve, and how many
/// approvals the stage needs.
pub struct ApprovalStageBasic {
    pub threshold: u64,
    pub approvers: Vec<Email>,
}

/// The stages a transaction of a wallet has to pass, in order.
pub struct ApprovalChainBasic(pub Vec<ApprovalStageBasic>);

/// The users allowed to create transactions for a wallet.
pub struct OperatorsBasic(pub Vec<Email>);

/// The users allowed to watch a wallet.
pub struct ViewersBasic(pub Vec<Email>);

/// All approvers of all stages, in stage order, with repetitions.
pub open spec fn chain_approvers(stages: Seq<ApprovalStageBasic>) -> Seq<Seq<char>>
    decreases stages.len(),
{
    if stages.len() == 0 {
        Seq::empty()
    } else {
        chain_approvers(stages.drop_last()) + views(stages.last().approvers@)
    }
}

pub proof fn lemma_chain_approvers_prefix(stages: Seq<ApprovalStageBasic>, i: int)
    requires
        0 <= i < stages.len(),
    ensures
        chain_approvers(stages.take(i + 1)) == chain_approvers(stages.take(i)) + views(
            stages[i].approvers@,
        ),
{
    assert(stages.take(i + 1).drop_last() =~= stages.take(i));
}

impl ApprovalStageBasic {
    pub open spec fn same_as(&self, other: &Self) -> bool {
        self.threshold == other.threshold && self.approvers@ == other.approvers@
    }

    pub fn new(threshold: u64, approvers: Vec<Email>) -> (r: Self)
        ensures
            r.threshold == threshold,
            r.approvers == approvers,
    {
        ApprovalStageBasic { threshold, approvers }
    }

    pub fn duplicate(&self) -> (r: Self)
        ensures
            r.same_as(self),
    {
        let r = ApprovalStageBasic { threshold: self.threshold, approvers: clone_strs(&self.approvers) };
        proof {
            assert(r.approvers@ == self.approvers@);
        }
        r
    }
}

impl ApprovalChainBasic {
    pub open spec fn same_as(&self, other: &Self) -> bool {
        &&& self.0@.len() == other.0@.len()
        &&& forall|i: int| 0 <= i < self.0@.len() ==> (#[trigger] self.0@[i]).same_as(&other.0@[i])
    }

    pub open spec fn approver_set(&self) -> Set<Seq<char>> {
        chain_approvers(self.0@).to_set()
    }

    pub fn duplicate(&self) -> (r: Self)
        ensures
            r.same_as(self),
            chain_approvers(r.0@) == chain_approvers(self.0@),
    {
        let mut v: Vec<ApprovalStageBasic> = Vec::new();
        let mut i: usize = 0;
        while i < self.0.len()
            invariant
                i <= self.0@.len(),
                v@.len() == i,
                forall|j: int| 0 <= j < i ==> (#[trigger] v@[j]).same_as(&self.0@[j]),
            decreases self.0@.len() - i,
        {
            v.push(self.0[i].duplicate());
            i = i + 1;
        }
        let r = ApprovalChainBasic(v);
        proof {
            lemma_same_chain_approvers(r.0@, self.0@);
        }
        r
    }

    /// Every approver of the chain, once, in order of first appearance.
    pub fn distinct_approvers(&self) -> (r: Vec<Email>)
        ensures
            view_set(r@) == self.approver_set(),
            views(r@).no_duplicates(),
    {
        let mut out: Vec<Email> = Vec::new();
        let mut i: usize = 0;
        while i < self.0.len()
            invariant
                i <= self.0@.len(),
                view_set(out@) == chain_approvers(self.0@.take(i as int)).to_set(),
                views(out@).no_duplicates(),
            decreases self.0@.len() - i,
        {
            let stage = &self.0[i];
            let mut j: usize = 0;
            while j < stage.approvers.len()
                invariant
                    j <= stage.approvers@.len(),
                    *stage == self.0@[i as int],
                    view_set(out@) == (chain_approvers(self.0@.take(i as int)) + views(
                        stage.approvers@.take(j as int),
                    )).to_set(),
                    views(out@).no_duplicates(),
                decreases stage.approvers@.len() - j,
            {
                let ghost before = out@;
                push_unique(&mut out, clone_str(&stage.approvers[j]));
                proof {
                    let a = chain_approvers(self.0@.take(i as int));
                    let t0 = views(stage.approvers@.take(j as int));
                    let t1 = views(stage.approvers@.take(j as int + 1));
                    assert(t1 =~= t0.push(stage.approvers@[j as int]@));
                    assert((a + t1) =~= (a + t0).push(stage.approvers@[j as int]@));
                    lemma_seq_push_to_set(a + t0, stage.approvers@[j as int]@);
                }
                j = j + 1;
            }
            proof {
                assert(stage.approvers@.take(stage.approvers@.len() as int) =~= stage.approvers@);
                lemma_chain_approvers_prefix(self.0@, i as int);
            }
            i = i + 1;
        }
        proof {
            assert(self.0@.take(self.0@.len() as int) =~= self.0@);
        }
        out
    }

    /// Whether `user` approves in some stage.
    pub fn contains(&self, user: &Email) -> (r: bool)
        ensures
            r == self.approver_set().contains(user@),
    {
        let all = self.distinct_approvers();
        contains_str(&all, user)
    }
}

pub proof fn lemma_same_chain_approvers(a: Seq<ApprovalStageBasic>, b: Seq<ApprovalStageBasic>)
    requires
        a.len() == b.len(),
        forall|i: int| 0 <= i < a.len() ==> (#[trigger] a[i]).same_as(&b[i]),
    ensures
        chain_approvers(a) == chain_approvers(b),
    decreases a.len(),
{
    if a.len() > 0 {
        lemma_same_chain_approvers(a.drop_last(), b.drop_last());
        assert(a.last().same_as(&b.last()));
    }
}

/// Pushing an element adds it to the sequence's set.
pub proof fn lemma_seq_push_to_set<A>(s: Seq<A>, x: A)
    ensures
        s.push(x).to_set() == s.to_set().insert(x),
{
    let a = s.push(x);
    assert forall|y: A| a.contains(y) <==> s.contains(y) || y == x by {
        if a.contains(y) && y != x {
            let k = choose|k: int| 0 <= k < a.len() && a[k] == y;
            assert(s[k] == y);
        }
        if s.contains(y) {
            let k = choose|k: int| 0 <= k < s.len() && s[k] == y;
            assert(a[k] == y);
        }
        if y == x {
            assert(a[a.len() - 1] == y);
        }
    }
    assert(a.to_set() =~= s.to_set().insert(x));
}

impl OperatorsBasic {
    pub open spec fn operator_set(&self) -> Set<Seq<char>> {
        view_set(self.0@)
    }

    pub fn new(operators: Vec<Email>) -> (r: Self)
        ensures
            r.0 == operators,
    {
        OperatorsBasic(operators)
    }

    pub fn duplicate(&self) -> (r: Self)
        ensures
            r.0@ == self.0@,
    {
        OperatorsBasic(clone_strs(&self.0))
    }

    /// Every operator once, in order of first appearance.
    pub fn distinct_operators(&self) -> (r: Vec<Email>)
        ensures
            view_set(r@) == self.operator_set(),
            views(r@).no_duplicates(),
    {
        let mut out: Vec<Email> = Vec::new();
        let mut i: usize = 0;
        while i < self.0.len()
            invariant
                i <= self.0@.len(),
                view_set(out@) == views(self.0@.take(i as int)).to_set(),
                views(out@).no_duplicates(),
            decreases self.0@.len() - i,
        {
            push_unique(&mut out, clone_str(&self.0[i]));
            proof {
                assert(views(self.0@.take(i as int + 1)) =~= views(self.0@.take(i as int)).push(
                    self.0@[i as int]@,
                ));
                lemma_seq_push_to_set(views(self.0@.take(i as int)), self.0@[i as int]@);
            }
            i = i + 1;
        }
        proof {
            assert(self.0@.take(self.0@.len() as int) =~= self.0@);
        }
        out
    }

    pub fn contains(&self, user: &Email) -> (r: bool)
        ensures
            r == self.operator_set().contains(user@),
    {
        contains_str(&self.0, user)
    }
}

impl ViewersBasic {
    pub open spec fn viewer_set(&self) -> Set<Seq<char>> {
        view_set(self.0@)
    }

    pub fn duplicate(&self) -> (r: Self)
        ensures
            r.0@ == self.0@,
    {
        ViewersBasic(clone_strs(&self.0))
    }

    pub fn contains(&self, user: &Email) -> (r: bool)
        ensures
            r == self.viewer_set().contains(user@),
    {
        contains_str(&self.0, user)
    }
}

} // verus!
