//! Balances of an account per asset, and what is left to spend once
//! amounts on hold are taken off.
use vstd::prelude::*;
use crate::asset::{AssetType, CkAmount};
use crate::error::GatewayError;
use crate::model::{clone_str, AccountId};

verus! {

/// An amount per asset; each asset at most once.
pub struct AmountMap {
    entries: Vec<(AssetType, CkAmount)>,
}

impl AmountMap {
    #[verifier::type_invariant]
    closed spec fn wf(self) -> bool {
        forall|i: int, j: int|
            0 <= i < j < self.entries@.len() ==> #[trigger] self.entries@[i].0 != #[trigger] self.entries@[j].0
    }

    /// The amounts, by asset.
    pub closed spec fn amounts(&self) -> Map<AssetType, CkAmount> {
        Map::new(
            |a: AssetType| exists|i: int| 0 <= i < self.entries@.len() && self.entries@[i].0 == a,
            |a: AssetType|
                self.entries@[choose|i: int| 0 <= i < self.entries@.len() && self.entries@[i].0 == a].1,
        )
    }

    /// The amounts in the order their assets were first set.
    pub closed spec fn in_order(&self) -> Seq<CkAmount> {
        self.entries@.map_values(|e: (AssetType, CkAmount)| e.1)
    }

    pub fn new() -> (r: Self)
        ensures
            r.amounts() == Map::<AssetType, CkAmount>::empty(),
    {
        let r = AmountMap { entries: Vec::new() };
        proof {
            assert(r.amounts() =~= Map::<AssetType, CkAmount>::empty());
        }
        r
    }

    fn position(&self, asset: AssetType) -> (r: Option<usize>)
        ensures
            match r {
                Some(i) => i < self.entries@.len() && self.entries@[i as int].0 == asset,
                None => forall|i: int| 0 <= i < self.entries@.len() ==> self.entries@[i].0 != asset,
            },
    {
        let mut i: usize = 0;
        while i < self.entries.len()
            invariant
                i <= self.entries@.len(),
                forall|j: int| 0 <= j < i ==> self.entries@[j].0 != asset,
            decreases self.entries@.len() - i,
        {
            if self.entries[i].0 == asset {
                return Some(i);
            }
            i = i + 1;
        }
        None
    }

    /// The amount of `asset`, if set.
    pub fn get(&self, asset: AssetType) -> (r: Option<CkAmount>)
        ensures
            r is Some <==> self.amounts().contains_key(asset),
            r matches Some(a) ==> a == self.amounts()[asset],
    {
        proof {
            use_type_invariant(self);
        }
        match self.position(asset) {
            Some(i) => {
                proof {
                    let j = choose|j: int| 0 <= j < self.entries@.len() && self.entries@[j].0 == asset;
                    assert(j == i);
                }
                Some(self.entries[i].1)
            },
            None => None,
        }
    }

    /// Sets the amount of `asset`.
    pub fn insert(&mut self, asset: AssetType, amount: CkAmount)
        ensures
            final(self).amounts() == old(self).amounts().insert(asset, amount),
    {
        proof {
            use_type_invariant(&*self);
        }
        let pos = self.position(asset);
        let mut es: Vec<(AssetType, CkAmount)> = Vec::new();
        std::mem::swap(&mut es, &mut self.entries);
        let ghost old_es = es@;
        match pos {
            Some(i) => {
                es.set(i, (asset, amount));
            },
            None => {
                es.push((asset, amount));
            },
        }
        proof {
            assert forall|a: int, b: int| 0 <= a < b < es@.len() implies #[trigger] es@[a].0 != #[trigger] es@[b].0 by {
                if b < old_es.len() {
                    assert(old_es[a].0 != old_es[b].0 || (pos is Some && (a == pos->0 || b == pos->0)));
                }
            }
        }
        self.entries = es;
        proof {
            let m = self.amounts();
            let o = old(self).amounts().insert(asset, amount);
            assert forall|x: AssetType| #[trigger] m.contains_key(x) <==> o.contains_key(x) by {
                if o.contains_key(x) && x != asset {
                    let j = choose|j: int| 0 <= j < old_es.len() && old_es[j].0 == x;
                    assert(self.entries@[j].0 == x);
                }
                if x == asset {
                    match pos {
                        Some(i) => assert(self.entries@[i as int].0 == x),
                        None => assert(self.entries@[old_es.len() as int].0 == x),
                    }
                }
                if m.contains_key(x) && x != asset {
                    let j = choose|j: int| 0 <= j < self.entries@.len() && self.entries@[j].0 == x;
                    assert(old_es[j].0 == x);
                }
            }
            assert forall|x: AssetType| #[trigger] m.contains_key(x) implies m[x] == o[x] by {
                let j = choose|j: int| 0 <= j < self.entries@.len() && self.entries@[j].0 == x;
                if x != asset {
                    let k = choose|k: int| 0 <= k < old_es.len() && old_es[k].0 == x;
                    assert(j == k);
                } else {
                    match pos {
                        Some(i) => assert(j == i),
                        None => assert(j == old_es.len()),
                    }
                }
            }
            assert(m =~= o);
        }
    }

    pub fn into_amounts(self) -> (r: Vec<CkAmount>)
        ensures
            r@ == self.in_order(),
    {
        let mut out: Vec<CkAmount> = Vec::new();
        let mut i: usize = 0;
        while i < self.entries.len()
            invariant
                i <= self.entries@.len(),
                out@ == self.in_order().take(i as int),
            decreases self.entries@.len() - i,
        {
            out.push(self.entries[i].1);
            proof {
                assert(self.in_order().take(i as int + 1) =~= self.in_order().take(i as int).push(self.entries@[i as int].1));
            }
            i = i + 1;
        }
        proof {
            assert(self.in_order().take(i as int) =~= self.in_order());
        }
        out
    }

    pub proof fn lemma_in_order(&self)
        ensures
            forall|a: AssetType| #[trigger] self.amounts().contains_key(a) ==> self.in_order().contains(self.amounts()[a]),
    {
        assert forall|a: AssetType| #[trigger] self.amounts().contains_key(a) implies self.in_order().contains(self.amounts()[a]) by {
            let j = choose|j: int| 0 <= j < self.entries@.len() && self.entries@[j].0 == a;
            assert(self.in_order()[j] == self.amounts()[a]);
        }
    }
}

/// The balances of one account, per asset.
pub struct BalanceInfo {
    account: AccountId,
    inner: AmountMap,
}

/// Zero of `asset`.
pub open spec fn zero_of(asset: AssetType) -> CkAmount {
    CkAmount { value: 0, asset_type: asset }
}

impl BalanceInfo {
    pub closed spec fn account_spec(&self) -> Seq<char> {
        self.account@
    }

    pub closed spec fn balances(&self) -> Map<AssetType, CkAmount> {
        self.inner.amounts()
    }

    /// The account the balances are of.
    pub fn account(&self) -> (r: &AccountId)
        ensures
            r@ == self.account_spec(),
    {
        &self.account
    }

    /// Zero of each of `asset_types`.
    pub fn new(account: AccountId, asset_types: Vec<AssetType>) -> (r: Self)
        ensures
            r.account_spec() == account@,
            r.balances().dom() == asset_types@.to_set(),
            forall|a: AssetType| #[trigger] r.balances().contains_key(a) ==> r.balances()[a] == zero_of(a),
    {
        let mut inner = AmountMap::new();
        let mut i: usize = 0;
        while i < asset_types.len()
            invariant
                i <= asset_types@.len(),
                inner.amounts().dom() == asset_types@.take(i as int).to_set(),
                forall|a: AssetType| #[trigger] inner.amounts().contains_key(a) ==> inner.amounts()[a] == zero_of(a),
            decreases asset_types@.len() - i,
        {
            let a = asset_types[i];
            inner.insert(a, CkAmount::new(0, a));
            proof {
                assert(asset_types@.take(i as int + 1) =~= asset_types@.take(i as int).push(a));
                crate::model::lemma_seq_push_to_set(asset_types@.take(i as int), a);
            }
            i = i + 1;
        }
        proof {
            assert(asset_types@.take(i as int) =~= asset_types@);
        }
        BalanceInfo { account, inner }
    }

    /// Sets the balance of `asset_type`.
    pub fn add_balance(&mut self, asset_type: AssetType, balance: CkAmount)
        ensures
            final(self).balances() == old(self).balances().insert(asset_type, balance),
            final(self).account_spec() == old(self).account_spec(),
    {
        self.inner.insert(asset_type, balance);
    }

    /// The balance of `asset_type`; fails when the account has none.
    pub fn get_raw_amount_for_asset(&self, asset_type: &AssetType) -> (r: Result<CkAmount, GatewayError>)
        ensures
            r is Ok <==> self.balances().contains_key(*asset_type),
            r matches Ok(a) ==> a == self.balances()[*asset_type],
            r matches Err(e) ==> e == GatewayError::AssetNotFound,
    {
        match self.inner.get(*asset_type) {
            Some(a) => Ok(a),
            None => Err(GatewayError::AssetNotFound),
        }
    }

    /// What is left to spend: each balance less the amount on hold for its
    /// asset (nothing on hold: all of it); fails when some amount on hold
    /// exceeds its balance.
    pub fn get_available_balances(&self, onhold_balance_map: &AmountMap) -> (r: Result<BalanceInfo, GatewayError>)
        ensures
            r is Ok <==> forall|a: AssetType| #[trigger] self.balances().contains_key(a) ==> onhold_of(onhold_balance_map.amounts(), a)
                <= self.balances()[a].value,
            r matches Err(e) ==> e == GatewayError::InsufficientBalance,
            r matches Ok(avail) ==> {
                &&& avail.account_spec() == self.account_spec()
                &&& avail.balances().dom() == self.balances().dom()
                &&& forall|a: AssetType| #[trigger] self.balances().contains_key(a) ==> avail.balances()[a] == available_amount(self.balances()[a], onhold_of(onhold_balance_map.amounts(), a))
            },
    {
        proof {
            use_type_invariant(&self.inner);
        }
        let mut avail = AmountMap::new();
        let mut i: usize = 0;
        let es = &self.inner.entries;
        while i < es.len()
            invariant
                i <= es@.len(),
                es == &self.inner.entries,
                forall|x: int, y: int| 0 <= x < y < es@.len() ==> #[trigger] es@[x].0 != #[trigger] es@[y].0,
                avail.amounts().dom() == Set::new(|a: AssetType| exists|j: int| 0 <= j < i && es@[j].0 == a),
                forall|j: int| 0 <= j < i ==> onhold_of(onhold_balance_map.amounts(), #[trigger] es@[j].0) <= es@[j].1.value,
                forall|j: int| 0 <= j < i ==> avail.amounts()[#[trigger] es@[j].0] == available_amount(es@[j].1, onhold_of(onhold_balance_map.amounts(), es@[j].0)),
            decreases es@.len() - i,
        {
            let (asset, onchain) = es[i];
            let onhold_value: u128 = match onhold_balance_map.get(asset) {
                Some(onhold) => onhold.value,
                None => 0,
            };
            if onhold_value > onchain.value {
                proof {
                    let j = choose|j: int| 0 <= j < es@.len() && es@[j].0 == asset;
                    assert(j == i);
                    assert(self.balances().contains_key(asset));
                }
                return Err(GatewayError::InsufficientBalance);
            }
            let ghost before = avail.amounts();
            avail.insert(asset, CkAmount::new(onchain.value - onhold_value, onchain.asset_type));
            proof {
                assert(avail.amounts().dom() =~= Set::new(|a: AssetType| exists|j: int| 0 <= j < i + 1 && es@[j].0 == a)) by {
                    assert forall|a: AssetType| avail.amounts().contains_key(a) <==> exists|j: int| 0 <= j < i + 1 && es@[j].0 == a by {
                        if a == asset {
                            assert(es@[i as int].0 == a);
                        }
                    }
                }
                assert forall|j: int| 0 <= j < i + 1 implies avail.amounts()[#[trigger] es@[j].0] == available_amount(es@[j].1, onhold_of(onhold_balance_map.amounts(), es@[j].0)) by {
                    if j < i {
                        assert(es@[j].0 != es@[i as int].0);
                    }
                }
            }
            i = i + 1;
        }
        proof {
            assert forall|a: AssetType| #[trigger] self.balances().contains_key(a) implies onhold_of(onhold_balance_map.amounts(), a)
                <= self.balances()[a].value && avail.amounts()[a] == available_amount(self.balances()[a], onhold_of(onhold_balance_map.amounts(), a)) by {
                let j = choose|j: int| 0 <= j < es@.len() && es@[j].0 == a;
                assert(es@[j].0 == a);
            }
            assert(avail.amounts().dom() =~= self.balances().dom()) by {
                assert forall|a: AssetType| avail.amounts().contains_key(a) <==> self.balances().contains_key(a) by {
                    if self.balances().contains_key(a) {
                        let j = choose|j: int| 0 <= j < es@.len() && es@[j].0 == a;
                    }
                }
            }
        }
        Ok(BalanceInfo { account: clone_str(&self.account), inner: avail })
    }

    /// The balances, by asset.
    pub fn take_records(self) -> (r: AmountMap)
        ensures
            r.amounts() == self.balances(),
    {
        self.inner
    }

    /// The balances, each once.
    pub fn take_amounts(self) -> (r: Vec<CkAmount>)
        ensures
            forall|a: AssetType| #[trigger] self.balances().contains_key(a) ==> r@.contains(self.balances()[a]),
    {
        proof {
            self.inner.lemma_in_order();
        }
        self.inner.into_amounts()
    }
}

/// What is left of `balance` with `onhold` of it on hold.
pub open spec fn available_amount(balance: CkAmount, onhold: u128) -> CkAmount {
    CkAmount { value: (balance.value - onhold) as u128, asset_type: balance.asset_type }
}

/// The amount on hold for `a`: its value, or nothing.
pub open spec fn onhold_of(onhold: Map<AssetType, CkAmount>, a: AssetType) -> u128 {
    if onhold.contains_key(a) {
        onhold[a].value
    } else {
        0
    }
}

/// The balances of an account after reading them from the network: the
/// stored record (a new one with zero of each asset when none is stored),
/// with each asset's balance replaced by the one read, in order; a balance
/// that could not be read counts as zero.
pub fn sync_asset_balances(
    stored: Option<BalanceInfo>,
    account_id: AccountId,
    asset_types: &Vec<AssetType>,
    fetched: &Vec<Option<u128>>,
) -> (r: BalanceInfo)
    requires
        fetched@.len() == asset_types@.len(),
    ensures
        stored matches Some(b) ==> r.account_spec() == b.account_spec(),
        stored is None ==> r.account_spec() == account_id@,
        forall|i: int| 0 <= i < asset_types@.len() ==> (forall|j: int| i < j < asset_types@.len() ==> asset_types@[j] != asset_types@[i])
            ==> r.balances()[#[trigger] asset_types@[i]] == amount_read(fetched@[i], asset_types@[i]),
        forall|a: AssetType| !asset_types@.contains(a) ==> (r.balances().contains_key(a) <==> match stored {
            Some(b) => b.balances().contains_key(a),
            None => false,
        }),
{
    let mut info = match stored {
        Some(b) => b,
        None => BalanceInfo::new(account_id, clone_assets(asset_types)),
    };
    let ghost start = info.balances();
    let mut i: usize = 0;
    while i < asset_types.len()
        invariant
            i <= asset_types@.len(),
            fetched@.len() == asset_types@.len(),
            info.account_spec() == (match stored {
                Some(b) => b.account_spec(),
                None => account_id@,
            }),
            forall|k: int| 0 <= k < i ==> (forall|j: int| k < j < i ==> asset_types@[j] != asset_types@[k])
                ==> info.balances()[#[trigger] asset_types@[k]] == amount_read(fetched@[k], asset_types@[k]),
            forall|a: AssetType| !asset_types@.take(i as int).contains(a) ==> (info.balances().contains_key(a) <==> start.contains_key(a)),
            forall|k: int| 0 <= k < i ==> info.balances().contains_key(#[trigger] asset_types@[k]),
        decreases asset_types@.len() - i,
    {
        let a = asset_types[i];
        let v: u128 = match fetched[i] {
            Some(v) => v,
            None => 0,
        };
        info.add_balance(a, CkAmount::new(v, a));
        proof {
            assert forall|x: AssetType| !asset_types@.take(i as int + 1).contains(x) implies (info.balances().contains_key(x) <==> start.contains_key(x)) by {
                assert(asset_types@.take(i as int + 1)[i as int] == a);
                if asset_types@.take(i as int).contains(x) {
                    let k = choose|k: int| 0 <= k < i && asset_types@.take(i as int)[k] == x;
                    assert(asset_types@.take(i as int + 1)[k] == x);
                }
            }
        }
        i = i + 1;
    }
    proof {
        assert(asset_types@.take(i as int) =~= asset_types@);
        assert forall|a: AssetType| !asset_types@.contains(a) implies (info.balances().contains_key(a) <==> match stored {
            Some(b) => b.balances().contains_key(a),
            None => false,
        }) by {
            if stored is None {
                assert(!start.contains_key(a));
            }
        }
    }
    info
}

/// The amount read for `asset`: the balance, or zero when it could not be
/// read.
pub open spec fn amount_read(fetched: Option<u128>, asset: AssetType) -> CkAmount {
    CkAmount {
        value: match fetched {
            Some(v) => v,
            None => 0,
        },
        asset_type: asset,
    }
}

fn clone_assets(v: &Vec<AssetType>) -> (r: Vec<AssetType>)
    ensures
        r@ == v@,
{
    let mut out: Vec<AssetType> = Vec::new();
    let mut i: usize = 0;
    while i < v.len()
        invariant
            i <= v@.len(),
            out@ == v@.take(i as int),
        decreases v@.len() - i,
    {
        out.push(v[i]);
        proof {
            assert(v@.take(i as int + 1) =~= v@.take(i as int).push(v@[i as int]));
        }
        i = i + 1;
    }
    proof {
        assert(v@.take(i as int) =~= v@);
    }
    out
}

/// The sum of the balances.
pub open spec fn sum_u64(s: Seq<u64>) -> nat
    decreases s.len(),
{
    if s.len() == 0 {
        0
    } else {
        sum_u64(s.drop_last()) + s.last() as nat
    }
}

proof fn lemma_sum_prefix(s: Seq<u64>, i: int)
    requires
        0 <= i <= s.len(),
    ensures
        sum_u64(s.take(i)) <= sum_u64(s),
    decreases s.len() - i,
{
    if i < s.len() {
        lemma_sum_prefix(s, i + 1);
        assert(s.take(i + 1).drop_last() =~= s.take(i));
    } else {
        assert(s.take(i) =~= s);
    }
}

/// The bitcoin balance of an account: the stored record (or a new one of
/// bitcoin alone) with its bitcoin balance set to the sum of its
/// addresses' balances.
pub fn sync_btc_balance(stored: Option<BalanceInfo>, account_id: AccountId, address_balances: &Vec<u64>) -> (r: BalanceInfo)
    requires
        sum_u64(address_balances@) <= u64::MAX,
    ensures
        stored matches Some(b) ==> r.account_spec() == b.account_spec() && r.balances() == b.balances().insert(
            AssetType::BTC,
            CkAmount { value: sum_u64(address_balances@) as u128, asset_type: AssetType::BTC },
        ),
        stored is None ==> r.account_spec() == account_id@ && r.balances() == map![AssetType::BTC => CkAmount {
            value: sum_u64(address_balances@) as u128,
            asset_type: AssetType::BTC,
        }],
{
    let mut info = match stored {
        Some(b) => b,
        None => {
            let assets = vec![AssetType::BTC];
            proof {
                assert(assets@.to_set() =~= set![AssetType::BTC]) by {
                    assert(assets@[0] == AssetType::BTC);
                }
            }
            BalanceInfo::new(account_id, assets)
        },
    };
    let mut total: u64 = 0;
    let mut i: usize = 0;
    proof {
        assert(address_balances@.take(0) =~= Seq::<u64>::empty());
    }
    while i < address_balances.len()
        invariant
            i <= address_balances@.len(),
            sum_u64(address_balances@) <= u64::MAX,
            total == sum_u64(address_balances@.take(i as int)),
        decreases address_balances@.len() - i,
    {
        proof {
            assert(address_balances@.take(i as int + 1).drop_last() =~= address_balances@.take(i as int));
            lemma_sum_prefix(address_balances@, i as int + 1);
        }
        total = total + address_balances[i];
        i = i + 1;
    }
    proof {
        assert(address_balances@.take(i as int) =~= address_balances@);
    }
    info.add_balance(AssetType::BTC, CkAmount::new(total as u128, AssetType::BTC));
    proof {
        if stored is None {
            assert(info.balances() =~= map![AssetType::BTC => CkAmount {
                value: sum_u64(address_balances@) as u128,
                asset_type: AssetType::BTC,
            }]);
        }
    }
    info
}

} // verus!
