//! The mission desk of a company: contracts on offer, the one mission (a contract or a
//! depot deployment) selected for the next launch, launch counters and the contracts
//! delivered. Each contract's terms and each depot mission are the caller's values,
//! carried untouched.

use vstd::prelude::*;

verus! {

/// Number of contracts shown on offer at once.
pub const CONTRACTS_TO_SHOW: usize = 5;

/// A contract on offer: its id and the caller's terms.
#[derive(Debug, Clone)]
pub struct ContractOffer<C> {
    pub id: u32,
    pub terms: C,
}

/// Contracts on offer, the selected mission, and the launch record.
#[derive(Debug, Clone)]
pub struct MissionDesk<C, M> {
    /// Contracts available to choose from
    pub available_contracts: Vec<ContractOffer<C>>,
    /// Currently selected contract (if any)
    pub active_contract: Option<ContractOffer<C>>,
    /// Currently selected depot mission (if any)
    pub active_depot_mission: Option<M>,
    /// Ids of contracts whose payload arrived
    pub completed_contracts: Vec<u32>,
    /// Total launches attempted
    pub total_launches: u32,
    /// Successful launches
    pub successful_launches: u32,
    next_contract_id: u32,
}

/// What a mission desk holds.
pub struct DeskView<C, M> {
    pub available_contracts: Seq<ContractOffer<C>>,
    pub active_contract: Option<ContractOffer<C>>,
    pub active_depot_mission: Option<M>,
    pub completed_contracts: Seq<u32>,
    pub total_launches: nat,
    pub successful_launches: nat,
    /// The id the next contract put on offer gets
    pub next_contract_id: nat,
}

impl<C, M> View for MissionDesk<C, M> {
    type V = DeskView<C, M>;

    closed spec fn view(&self) -> DeskView<C, M> {
        DeskView {
            available_contracts: self.available_contracts@,
            active_contract: self.active_contract,
            active_depot_mission: self.active_depot_mission,
            completed_contracts: self.completed_contracts@,
            total_launches: self.total_launches as nat,
            successful_launches: self.successful_launches as nat,
            next_contract_id: self.next_contract_id as nat,
        }
    }
}

/// Position of the first offer with the given id, from position `i` on (the length when
/// there is none).
pub open spec fn offer_index<C>(s: Seq<ContractOffer<C>>, id: u32, i: int) -> int
    decreases s.len() - i,
{
    if i < 0 || i >= s.len() {
        s.len() as int
    } else if s[i].id == id {
        i
    } else {
        offer_index(s, id, i + 1)
    }
}

proof fn lemma_offer_index<C>(s: Seq<ContractOffer<C>>, id: u32, i: int)
    requires
        0 <= i <= s.len(),
    ensures
        i <= offer_index(s, id, i) <= s.len(),
        offer_index(s, id, i) < s.len() ==> s[offer_index(s, id, i)].id == id,
        forall|j: int| i <= j < offer_index(s, id, i) ==> (#[trigger] s[j]).id != id,
    decreases s.len() - i,
{
    if i < s.len() && s[i].id != id {
        lemma_offer_index(s, id, i + 1);
    }
}

impl<C, M> MissionDesk<C, M> {
    /// No contracts on offer, no mission, no launches; the first contract gets id 1.
    pub fn new() -> (d: Self)
        ensures
            d@.available_contracts.len() == 0,
            d@.active_contract is None,
            d@.active_depot_mission is None,
            d@.completed_contracts.len() == 0,
            d@.total_launches == 0,
            d@.successful_launches == 0,
            d@.next_contract_id == 1,
    {
        MissionDesk {
            available_contracts: Vec::new(),
            active_contract: None,
            active_depot_mission: None,
            completed_contracts: Vec::new(),
            total_launches: 0,
            successful_launches: 0,
            next_contract_id: 1,
        }
    }

    /// The id the next contract put on offer gets.
    pub fn next_contract_id(&self) -> (n: u32)
        ensures
            n == self@.next_contract_id,
    {
        self.next_contract_id
    }

    /// How many new contracts bring the offer back up to `CONTRACTS_TO_SHOW`.
    pub fn offers_needed(&self) -> (n: usize)
        ensures
            n == if self@.available_contracts.len() < CONTRACTS_TO_SHOW {
                CONTRACTS_TO_SHOW - self@.available_contracts.len()
            } else {
                0
            },
    {
        if self.available_contracts.len() < CONTRACTS_TO_SHOW {
            CONTRACTS_TO_SHOW - self.available_contracts.len()
        } else {
            0
        }
    }

    /// Put a contract with the given terms on offer under the next id, which is returned.
    pub fn offer_contract(&mut self, terms: C) -> (id: u32)
        requires
            old(self)@.next_contract_id < u32::MAX,
        ensures
            id == old(self)@.next_contract_id,
            final(self)@ == (DeskView {
                available_contracts: old(self)@.available_contracts.push(ContractOffer { id, terms }),
                next_contract_id: old(self)@.next_contract_id + 1,
                ..old(self)@
            }),
    {
        let id = self.next_contract_id;
        self.next_contract_id = self.next_contract_id + 1;
        self.available_contracts.push(ContractOffer { id, terms });
        id
    }

    /// Take every contract off offer (before a fresh batch is put up).
    pub fn clear_offers(&mut self)
        ensures
            final(self)@ == (DeskView { available_contracts: Seq::<ContractOffer<C>>::empty(), ..old(self)@ }),
    {
        self.available_contracts = Vec::new();
    }

    /// Select the contract on offer with the given id: it leaves the offer and becomes the
    /// active contract, and any depot mission is dropped. Returns whether it was on offer;
    /// otherwise nothing changes.
    pub fn select_contract(&mut self, contract_id: u32) -> (found: bool)
        ensures
            ({
                let k = offer_index(old(self)@.available_contracts, contract_id, 0);
                &&& found == (k < old(self)@.available_contracts.len())
                &&& found ==> final(self)@ == (DeskView {
                    available_contracts: old(self)@.available_contracts.remove(k),
                    active_contract: Some(old(self)@.available_contracts[k]),
                    active_depot_mission: None,
                    ..old(self)@
                })
                &&& !found ==> final(self)@ == old(self)@
            }),
    {
        proof {
            lemma_offer_index(self.available_contracts@, contract_id, 0);
        }
        let mut k: usize = 0;
        while k < self.available_contracts.len()
            invariant
                k <= self.available_contracts@.len(),
                self.available_contracts@ == old(self)@.available_contracts,
                self.active_contract == old(self)@.active_contract,
                self.active_depot_mission == old(self)@.active_depot_mission,
                self.completed_contracts@ == old(self)@.completed_contracts,
                self.total_launches == old(self)@.total_launches,
                self.successful_launches == old(self)@.successful_launches,
                self.next_contract_id == old(self)@.next_contract_id,
                forall|j: int| 0 <= j < k ==> (#[trigger] self.available_contracts@[j]).id != contract_id,
                k <= offer_index(self.available_contracts@, contract_id, 0) <= self.available_contracts@.len(),
                offer_index(self.available_contracts@, contract_id, 0) < self.available_contracts@.len()
                    ==> self.available_contracts@[offer_index(self.available_contracts@, contract_id, 0)].id
                    == contract_id,
            decreases self.available_contracts@.len() - k,
        {
            if self.available_contracts[k].id == contract_id {
                proof {
                    lemma_offer_index(self.available_contracts@, contract_id, 0);
                    if (k as int) < offer_index(self.available_contracts@, contract_id, 0) {
                        assert(self.available_contracts@[k as int].id != contract_id);
                    }
                }
                let offer = self.available_contracts.remove(k);
                self.active_depot_mission = None;
                self.active_contract = Some(offer);
                return true;
            }
            k = k + 1;
        }
        false
    }

    /// Give up the active contract without launching: it goes back on offer, at the end.
    pub fn abandon_contract(&mut self)
        ensures
            final(self)@ == match old(self)@.active_contract {
                Some(c) => DeskView {
                    available_contracts: old(self)@.available_contracts.push(c),
                    active_contract: None,
                    ..old(self)@
                },
                None => old(self)@,
            },
    {
        match self.active_contract.take() {
            Some(c) => self.available_contracts.push(c),
            None => {},
        }
    }

    /// Whether a contract or a depot mission is selected.
    pub fn has_active_mission(&self) -> (b: bool)
        ensures
            b == (self@.active_contract is Some || self@.active_depot_mission is Some),
    {
        self.active_contract.is_some() || self.active_depot_mission.is_some()
    }

    /// Select a depot mission (already checked against the depot inventory and the map);
    /// any active contract is dropped.
    pub fn select_depot_mission(&mut self, mission: M)
        ensures
            final(self)@ == (DeskView {
                active_contract: None,
                active_depot_mission: Some(mission),
                ..old(self)@
            }),
    {
        self.active_contract = None;
        self.active_depot_mission = Some(mission);
    }

    /// Drop the depot mission (the depot stays in inventory).
    pub fn cancel_depot_mission(&mut self)
        ensures
            final(self)@ == (DeskView { active_depot_mission: None, ..old(self)@ }),
    {
        self.active_depot_mission = None;
    }

    /// Record a successful contract launch: one more launch and one more success, and
    /// the active contract (if any) is taken off the desk and returned, to fly with the
    /// payload.
    pub fn record_contract_success(&mut self) -> (taken: Option<ContractOffer<C>>)
        requires
            old(self)@.total_launches < u32::MAX,
            old(self)@.successful_launches < u32::MAX,
        ensures
            taken == old(self)@.active_contract,
            final(self)@ == (DeskView {
                active_contract: None,
                total_launches: old(self)@.total_launches + 1,
                successful_launches: old(self)@.successful_launches + 1,
                ..old(self)@
            }),
    {
        self.total_launches = self.total_launches + 1;
        self.successful_launches = self.successful_launches + 1;
        self.active_contract.take()
    }

    /// Record a failed launch: one more launch; the selected mission stays for a retry.
    pub fn record_launch_failure(&mut self)
        requires
            old(self)@.total_launches < u32::MAX,
        ensures
            final(self)@ == (DeskView { total_launches: old(self)@.total_launches + 1, ..old(self)@ }),
    {
        self.total_launches = self.total_launches + 1;
    }

    /// Record a successful depot launch: refused (false, nothing changed) without an
    /// active depot mission; otherwise one more launch and one more success. The mission
    /// stays until the depot has left inventory and `cancel_depot_mission` clears it.
    pub fn record_depot_success(&mut self) -> (ok: bool)
        requires
            old(self)@.total_launches < u32::MAX,
            old(self)@.successful_launches < u32::MAX,
        ensures
            ok == (old(self)@.active_depot_mission is Some),
            ok ==> final(self)@ == (DeskView {
                total_launches: old(self)@.total_launches + 1,
                successful_launches: old(self)@.successful_launches + 1,
                ..old(self)@
            }),
            !ok ==> final(self)@ == old(self)@,
    {
        if self.active_depot_mission.is_none() {
            return false;
        }
        self.total_launches = self.total_launches + 1;
        self.successful_launches = self.successful_launches + 1;
        true
    }

    /// Record that a contract's payload arrived.
    pub fn record_contract_delivered(&mut self, contract_id: u32)
        ensures
            final(self)@ == (DeskView {
                completed_contracts: old(self)@.completed_contracts.push(contract_id),
                ..old(self)@
            }),
    {
        self.completed_contracts.push(contract_id);
    }
}

/// Selecting the contract at position `k` and then abandoning it leaves the same
/// contracts on offer: the list loses the contract at `k` and gets it back at the end, so
/// it holds the same offers, as many of each, as before.
pub proof fn lemma_abandon_after_select<C, M>(d: DeskView<C, M>, k: int)
    requires
        0 <= k < d.available_contracts.len(),
    ensures
        d.available_contracts.remove(k).push(d.available_contracts[k]).to_multiset()
            =~= d.available_contracts.to_multiset(),
        d.available_contracts.remove(k).push(d.available_contracts[k]).len() == d.available_contracts.len(),
{
    broadcast use vstd::multiset::group_multiset_axioms;

    let s = d.available_contracts;
    vstd::seq_lib::to_multiset_remove(s, k);
    vstd::seq_lib::to_multiset_build(s.remove(k), s[k]);
    vstd::seq_lib::to_multiset_contains(s, s[k]);
    assert(s.contains(s[k]));
}

} // verus!
