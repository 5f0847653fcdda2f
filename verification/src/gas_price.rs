//! Fee levels of the networks: a week of EVM gas prices with their
//! maximum, and Bitcoin fee rates by confirmation target.
use vstd::prelude::*;
use std::collections::HashMap;
use std::collections::VecDeque;
use crate::asset::{CkNetwork, NetworkType};
use crate::error::GatewayError;

verus! {

/// A week of prices sampled every half hour: 7 * 24 * 60 / 30.
pub const MAX_GAS_PRICE_ENTRIES: usize = 336;

/// The largest of the prices; 0 for none.
pub open spec fn seq_max(s: Seq<u128>) -> u128
    decreases s.len(),
{
    if s.len() == 0 {
        0
    } else {
        let m = seq_max(s.drop_last());
        if s.last() > m {
            s.last()
        } else {
            m
        }
    }
}

/// The maximum of a sequence is the larger of its first element and the
/// maximum of the rest.
pub proof fn lemma_seq_max_first(s: Seq<u128>)
    requires
        s.len() > 0,
    ensures
        seq_max(s) == (if s[0] > seq_max(s.drop_first()) {
            s[0]
        } else {
            seq_max(s.drop_first())
        }),
    decreases s.len(),
{
    if s.len() == 1 {
        assert(s.drop_first().len() == 0);
        assert(s.drop_last().len() == 0);
        assert(seq_max(s.drop_first()) == 0);
        assert(seq_max(s.drop_last()) == 0);
        assert(s.last() == s[0]);
    } else {
        lemma_seq_max_first(s.drop_last());
        assert(s.drop_first().drop_last() =~= s.drop_last().drop_first());
        assert(s.drop_first().last() == s.last());
        assert(s.drop_last()[0] == s[0]);
        assert(seq_max(s.drop_first()) == (if s.drop_first().last() > seq_max(s.drop_first().drop_last()) {
            s.drop_first().last()
        } else {
            seq_max(s.drop_first().drop_last())
        }));
    }
}

/// Every element is at most the maximum, and a non-empty sequence holds
/// it.
pub proof fn lemma_seq_max_bounds(s: Seq<u128>)
    ensures
        forall|i: int| 0 <= i < s.len() ==> s[i] <= seq_max(s),
        s.len() > 0 ==> s.contains(seq_max(s)),
    decreases s.len(),
{
    if s.len() > 0 {
        lemma_seq_max_bounds(s.drop_last());
        assert forall|i: int| 0 <= i < s.len() implies s[i] <= seq_max(s) by {
            if i < s.len() - 1 {
                assert(s.drop_last()[i] == s[i]);
            }
        }
        if s.last() > seq_max(s.drop_last()) || s.len() == 1 {
            assert(s[s.len() - 1] == s.last());
            if s.len() == 1 {
                assert(seq_max(s) == s[0] || seq_max(s) == 0);
                if seq_max(s) != s[0] {
                    assert(s.last() <= 0);
                    assert(s[0] == 0);
                }
            }
        } else {
            let j = choose|j: int| 0 <= j < s.drop_last().len() && s.drop_last()[j] == seq_max(s.drop_last());
            assert(s[j] == seq_max(s));
        }
    }
}

/// The gas prices of an EVM network over the last week, newest last, with
/// their maximum kept at hand.
pub struct EthGasPriceInfo {
    network: NetworkType,
    gas_price_history: VecDeque<u128>,
    max_in_history: u128,
}

impl EthGasPriceInfo {
    /// At most a week of prices, and the kept maximum is theirs.
    #[verifier::type_invariant]
    closed spec fn wf(self) -> bool {
        &&& self.gas_price_history@.len() <= MAX_GAS_PRICE_ENTRIES
        &&& self.max_in_history == seq_max(self.gas_price_history@)
    }

    /// The prices kept, oldest first.
    pub closed spec fn history(&self) -> Seq<u128> {
        self.gas_price_history@
    }

    pub closed spec fn network_spec(&self) -> NetworkType {
        self.network
    }

    /// No prices yet.
    pub fn new(network: NetworkType) -> (r: Self)
        ensures
            r.history() == Seq::<u128>::empty(),
            r.network_spec() == network,
    {
        let h: VecDeque<u128> = VecDeque::new();
        EthGasPriceInfo { network, gas_price_history: h, max_in_history: 0 }
    }

    fn recalculate_max(history: &VecDeque<u128>) -> (r: u128)
        ensures
            r == seq_max(history@),
    {
        let mut m: u128 = 0;
        let mut i: usize = 0;
        proof {
            assert(history@.take(0) =~= Seq::<u128>::empty());
        }
        while i < history.len()
            invariant
                i <= history@.len(),
                m == seq_max(history@.take(i as int)),
            decreases history@.len() - i,
        {
            let x = history[i];
            proof {
                assert(history@.take(i as int + 1).drop_last() =~= history@.take(i as int));
                assert(history@.take(i as int + 1).last() == x);
            }
            if x > m {
                m = x;
            }
            i = i + 1;
        }
        proof {
            assert(history@.take(i as int) =~= history@);
        }
        m
    }

    /// Records the current price; the oldest one leaves when a week is
    /// kept already.
    pub fn update(&mut self, current_gas_price: u128)
        ensures
            final(self).history() == (if old(self).history().len() >= MAX_GAS_PRICE_ENTRIES {
                old(self).history().drop_first()
            } else {
                old(self).history()
            }).push(current_gas_price),
            final(self).history().len() <= MAX_GAS_PRICE_ENTRIES,
            final(self).network_spec() == old(self).network_spec(),
    {
        let mut taken = EthGasPriceInfo::new(self.network);
        std::mem::swap(&mut taken, self);
        proof {
            use_type_invariant(&taken);
        }
        let EthGasPriceInfo { network, gas_price_history: mut history, max_in_history: mut max } = taken;
        let ghost h0 = history@;
        if history.len() >= MAX_GAS_PRICE_ENTRIES {
            let removed = history.pop_front();
            proof {
                lemma_seq_max_first(h0);
                assert(history@ =~= h0.drop_first());
            }
            match removed {
                Some(v) => {
                    if v == max {
                        max = Self::recalculate_max(&history);
                    }
                },
                None => {},
            }
        }
        let ghost h1 = history@;
        history.push_back(current_gas_price);
        proof {
            assert(history@.drop_last() =~= h1);
        }
        if current_gas_price > max {
            max = current_gas_price;
        }
        *self = EthGasPriceInfo { network, gas_price_history: history, max_in_history: max };
    }

    /// The highest price of the week (0 with none).
    pub fn get_max_of_history(&self) -> (r: u128)
        ensures
            r == seq_max(self.history()),
    {
        proof {
            use_type_invariant(self);
        }
        self.max_in_history
    }

    /// The latest price (0 with none).
    pub fn get_current_gas_price(&self) -> (r: u128)
        ensures
            self.history().len() == 0 ==> r == 0,
            self.history().len() > 0 ==> r == self.history().last(),
    {
        let n = self.gas_price_history.len();
        if n == 0 {
            0
        } else {
            self.gas_price_history[n - 1]
        }
    }

    pub fn duplicate(&self) -> (r: Self)
        ensures
            r.history() == self.history(),
            r.network_spec() == self.network_spec(),
    {
        proof {
            use_type_invariant(self);
        }
        let mut h: VecDeque<u128> = VecDeque::new();
        let mut i: usize = 0;
        while i < self.gas_price_history.len()
            invariant
                i <= self.history().len(),
                h@ == self.history().take(i as int),
            decreases self.history().len() - i,
        {
            h.push_back(self.gas_price_history[i]);
            proof {
                assert(self.history().take(i as int + 1) =~= self.history().take(i as int).push(self.history()[i as int]));
            }
            i = i + 1;
        }
        proof {
            assert(self.history().take(i as int) =~= self.history());
        }
        EthGasPriceInfo { network: self.network, gas_price_history: h, max_in_history: self.max_in_history }
    }
}

/// Bitcoin fee rates (sat/vB) by number of blocks to confirmation; the
/// rates are kept as the bits of their floating-point values.
pub struct BtcFeeRateInfo {
    network: NetworkType,
    default_waiting_blocks: u16,
    fee_rate_list: HashMap<u16, u64>,
}

/// The default confirmation target, in blocks.
pub const DEFAULT_WAITING_BLOCKS: u16 = 6;

impl BtcFeeRateInfo {
    pub closed spec fn rates(&self) -> Map<u16, u64> {
        self.fee_rate_list@
    }

    pub closed spec fn network_spec(&self) -> NetworkType {
        self.network
    }

    pub closed spec fn default_blocks(&self) -> u16 {
        self.default_waiting_blocks
    }

    /// No rates yet; the default target is 6 blocks.
    pub fn new(network: NetworkType) -> (r: Self)
        ensures
            r.rates() == Map::<u16, u64>::empty(),
            r.network_spec() == network,
            r.default_blocks() == DEFAULT_WAITING_BLOCKS,
    {
        BtcFeeRateInfo { network, default_waiting_blocks: DEFAULT_WAITING_BLOCKS, fee_rate_list: HashMap::new() }
    }

    /// Replaces the rates.
    pub fn update(&mut self, list: HashMap<u16, u64>)
        ensures
            final(self).rates() == list@,
            final(self).network_spec() == old(self).network_spec(),
            final(self).default_blocks() == old(self).default_blocks(),
    {
        self.fee_rate_list = list;
    }

    /// The rate for confirmation within `waiting_blocks` (the bits of 0.0
    /// when none is known).
    pub fn get_fee_rate(&self, waiting_blocks: u16) -> (r: u64)
        ensures
            self.rates().contains_key(waiting_blocks) ==> r == self.rates()[waiting_blocks],
            !self.rates().contains_key(waiting_blocks) ==> r == 0,
    {
        broadcast use vstd::std_specs::hash::group_hash_axioms;
        match self.fee_rate_list.get(&waiting_blocks) {
            Some(v) => *v,
            None => 0,
        }
    }

    /// The rate for the default target, in sat/vB.
    pub fn get_recommended_fee_rate_in_sat(&self) -> (r: u64)
        ensures
            self.rates().contains_key(self.default_blocks()) ==> r == self.rates()[self.default_blocks()],
            !self.rates().contains_key(self.default_blocks()) ==> r == 0,
    {
        self.get_fee_rate(self.default_waiting_blocks)
    }

    pub fn duplicate(&self) -> (r: Self)
        ensures
            r.rates() == self.rates(),
            r.network_spec() == self.network_spec(),
            r.default_blocks() == self.default_blocks(),
    {
        BtcFeeRateInfo {
            network: self.network,
            default_waiting_blocks: self.default_waiting_blocks,
            fee_rate_list: self.fee_rate_list.clone(),
        }
    }
}

/// The fee level of one network.
pub enum GasPriceInfo {
    Eth(EthGasPriceInfo),
    Btc(BtcFeeRateInfo),
    Bsc(EthGasPriceInfo),
}

impl GasPriceInfo {
    /// An empty record for `network`. A BSC network gets an `Eth` record,
    /// as the service has always done.
    pub fn new(network: CkNetwork) -> (r: Self)
        ensures
            match network {
                CkNetwork::Eth(n) => r matches GasPriceInfo::Eth(i) && i.history().len() == 0 && i.network_spec() == n,
                CkNetwork::Btc(n) => r matches GasPriceInfo::Btc(i) && i.rates() == Map::<u16, u64>::empty() && i.network_spec() == n
                    && i.default_blocks() == DEFAULT_WAITING_BLOCKS,
                CkNetwork::Bsc(n) => r matches GasPriceInfo::Eth(i) && i.history().len() == 0 && i.network_spec() == n,
            },
    {
        match network {
            CkNetwork::Eth(net) => GasPriceInfo::Eth(EthGasPriceInfo::new(net)),
            CkNetwork::Btc(net) => GasPriceInfo::Btc(BtcFeeRateInfo::new(net)),
            CkNetwork::Bsc(net) => GasPriceInfo::Eth(EthGasPriceInfo::new(net)),
        }
    }

    pub open spec fn network_of(&self) -> CkNetwork {
        match self {
            GasPriceInfo::Eth(info) => CkNetwork::Eth(info.network_spec()),
            GasPriceInfo::Btc(info) => CkNetwork::Btc(info.network_spec()),
            GasPriceInfo::Bsc(info) => CkNetwork::Bsc(info.network_spec()),
        }
    }

    /// The network the record is for (its key in the store).
    pub fn network(&self) -> (r: CkNetwork)
        ensures
            r == self.network_of(),
    {
        match self {
            GasPriceInfo::Eth(info) => CkNetwork::Eth(info.network),
            GasPriceInfo::Btc(info) => CkNetwork::Btc(info.network),
            GasPriceInfo::Bsc(info) => CkNetwork::Bsc(info.network),
        }
    }

    pub fn take_eth(&self) -> (r: Option<EthGasPriceInfo>)
        ensures
            match self {
                GasPriceInfo::Eth(i) => r matches Some(c) && c.history() == i.history() && c.network_spec() == i.network_spec(),
                _ => r is None,
            },
    {
        match self {
            GasPriceInfo::Eth(info) => Some(info.duplicate()),
            _ => None,
        }
    }

    pub fn take_bsc(&self) -> (r: Option<EthGasPriceInfo>)
        ensures
            match self {
                GasPriceInfo::Bsc(i) => r matches Some(c) && c.history() == i.history() && c.network_spec() == i.network_spec(),
                _ => r is None,
            },
    {
        match self {
            GasPriceInfo::Bsc(info) => Some(info.duplicate()),
            _ => None,
        }
    }

    pub fn take_btc(&self) -> (r: Option<BtcFeeRateInfo>)
        ensures
            match self {
                GasPriceInfo::Btc(i) => r matches Some(c) && c.rates() == i.rates() && c.network_spec() == i.network_spec()
                    && c.default_blocks() == i.default_blocks(),
                _ => r is None,
            },
    {
        match self {
            GasPriceInfo::Btc(info) => Some(info.duplicate()),
            _ => None,
        }
    }

    /// Records the current gas price of an EVM network; fails, changing
    /// nothing, for Bitcoin.
    pub fn update_evm(&mut self, current_gas_price: u128) -> (r: Result<(), GatewayError>)
        ensures
            *old(self) is Btc ==> r == Err::<(), GatewayError>(GatewayError::NotEvmNetwork) && *final(self) == *old(self),
            *old(self) matches GasPriceInfo::Eth(i) ==> r is Ok && (*final(self) matches GasPriceInfo::Eth(j) && j.history()
                == window_push(i.history(), current_gas_price) && j.network_spec() == i.network_spec()),
            *old(self) matches GasPriceInfo::Bsc(i) ==> r is Ok && (*final(self) matches GasPriceInfo::Bsc(j) && j.history()
                == window_push(i.history(), current_gas_price) && j.network_spec() == i.network_spec()),
    {
        match self {
            GasPriceInfo::Eth(info) => {
                info.update(current_gas_price);
                Ok(())
            },
            GasPriceInfo::Bsc(info) => {
                info.update(current_gas_price);
                Ok(())
            },
            _ => Err(GatewayError::NotEvmNetwork),
        }
    }
}

/// The week of prices after `price` arrives.
pub open spec fn window_push(history: Seq<u128>, price: u128) -> Seq<u128> {
    (if history.len() >= MAX_GAS_PRICE_ENTRIES {
        history.drop_first()
    } else {
        history
    }).push(price)
}

/// The record of an EVM network after sampling `current_gas_price`: the
/// stored record with the price added, or, when none is stored, a new
/// empty record of the network's kind (the price is not added to it).
pub fn next_evm_gas_price_info(
    stored: Option<GasPriceInfo>,
    network: CkNetwork,
    network_type: NetworkType,
    current_gas_price: u128,
) -> (r: Result<GasPriceInfo, GatewayError>)
    ensures
        network is Btc ==> r == Err::<GasPriceInfo, GatewayError>(GatewayError::NotEvmNetwork),
        !(network is Btc) && stored is None ==> (r matches Ok(info) && match network {
            CkNetwork::Eth(_) => info matches GasPriceInfo::Eth(i) && i.history().len() == 0 && i.network_spec() == network_type,
            _ => info matches GasPriceInfo::Bsc(i) && i.history().len() == 0 && i.network_spec() == network_type,
        }),
        !(network is Btc) && stored is Some ==> (match stored->0 {
            GasPriceInfo::Btc(_) => r == Err::<GasPriceInfo, GatewayError>(GatewayError::NotEvmNetwork),
            GasPriceInfo::Eth(i) => r matches Ok(GasPriceInfo::Eth(j)) && j.history() == window_push(i.history(), current_gas_price),
            GasPriceInfo::Bsc(i) => r matches Ok(GasPriceInfo::Bsc(j)) && j.history() == window_push(i.history(), current_gas_price),
        }),
{
    match network {
        CkNetwork::Btc(_) => {
            return Err(GatewayError::NotEvmNetwork);
        },
        _ => {},
    }
    match stored {
        Some(mut info) => match info.update_evm(current_gas_price) {
            Ok(()) => Ok(info),
            Err(e) => Err(e),
        },
        None => match network {
            CkNetwork::Eth(_) => Ok(GasPriceInfo::Eth(EthGasPriceInfo::new(network_type))),
            _ => Ok(GasPriceInfo::Bsc(EthGasPriceInfo::new(network_type))),
        },
    }
}

/// The Bitcoin record after reading the current rates: the stored one
/// (which must be a Bitcoin record) or a new one, with the rates replaced.
pub fn next_btc_fee_rate_info(
    stored: Option<GasPriceInfo>,
    network_type: NetworkType,
    current: HashMap<u16, u64>,
) -> (r: Result<GasPriceInfo, GatewayError>)
    ensures
        stored is Some && !(stored->0 is Btc) ==> r == Err::<GasPriceInfo, GatewayError>(GatewayError::NotBtcNetwork),
        stored is Some && stored->0 is Btc ==> (match stored->0 {
            GasPriceInfo::Btc(i) => r matches Ok(GasPriceInfo::Btc(j)) && j.rates() == current@
                && j.network_spec() == i.network_spec() && j.default_blocks() == i.default_blocks(),
            _ => true,
        }),
        stored is None ==> (r matches Ok(GasPriceInfo::Btc(j)) && j.rates() == current@ && j.network_spec() == network_type
            && j.default_blocks() == DEFAULT_WAITING_BLOCKS),
{
    let mut info = match stored {
        Some(s) => match s.take_btc() {
            Some(b) => b,
            None => {
                return Err(GatewayError::NotBtcNetwork);
            },
        },
        None => BtcFeeRateInfo::new(network_type),
    };
    info.update(current);
    Ok(GasPriceInfo::Btc(info))
}

} // verus!
