//! NFTs that wrap vesting vaults: holding the token carries the right to
//! claim from the vault. The wrapper decides; the calls into the vesting
//! contract that its decisions ask for are returned to the caller to make.

use std::collections::HashMap;
use vstd::prelude::*;

use crate::contracts::common::Address;
use crate::str_map::StrMap;

verus! {

broadcast use vstd::std_specs::hash::group_hash_axioms;

#[derive(Debug, Clone)]
pub struct VestingNFTMetadata {
    pub vault_id: u64,
    pub vesting_contract: Address,
    pub total_amount: i128,
    pub start_time: u64,
    pub end_time: u64,
    pub created_at: u64,
    pub title: String,
}

#[derive(Debug, Clone)]
pub struct VaultReference {
    pub vesting_contract: Address,
    pub vault_id: u64,
}

impl VaultReference {
    pub fn duplicate(&self) -> (r: Self)
        ensures
            r == *self,
    {
        VaultReference { vesting_contract: self.vesting_contract.clone(), vault_id: self.vault_id }
    }
}

/// What the vesting contract reports of a vault.
#[derive(Debug, Clone)]
pub struct VaultInfo {
    pub total_amount: i128,
    pub start_time: u64,
    pub end_time: u64,
    pub title: String,
    pub is_transferable: bool,
}

/// A change of a vault's beneficiary that the vesting contract is asked to
/// make.
#[derive(Debug, Clone)]
pub struct BeneficiaryUpdate {
    pub vesting_contract: Address,
    pub vault_id: u64,
    pub new_beneficiary: Address,
}

/// A claim that the vesting contract is asked to pay.
#[derive(Debug, Clone)]
pub struct ClaimRequest {
    pub vesting_contract: Address,
    pub vault_id: u64,
    pub claim_amount: i128,
}

/// `tokens` without `token_id`.
pub open spec fn without_token(tokens: Seq<u32>, token_id: u32) -> Seq<u32>
    decreases tokens.len(),
{
    if tokens.len() == 0 {
        Seq::empty()
    } else {
        let rest = without_token(tokens.drop_last(), token_id);
        if tokens.last() != token_id { rest.push(tokens.last()) } else { rest }
    }
}

/// The wrapper's storage.
pub struct VestingNFTWrapper {
    admin: Option<Address>,
    vesting_contract: Option<Address>,
    name: Option<String>,
    symbol: Option<String>,
    token_count: u32,
    owners: HashMap<u32, Address>,
    owner_tokens: StrMap<Vec<u32>>,
    metadata: HashMap<u32, VestingNFTMetadata>,
    vault_refs: HashMap<u32, VaultReference>,
    transfer_lock: bool,
}

impl VestingNFTWrapper {
    pub closed spec fn admin(&self) -> Option<Address> {
        self.admin
    }

    pub closed spec fn vesting_contract(&self) -> Option<Address> {
        self.vesting_contract
    }

    pub closed spec fn token_name(&self) -> Option<String> {
        self.name
    }

    pub closed spec fn token_symbol(&self) -> Option<String> {
        self.symbol
    }

    pub closed spec fn supply(&self) -> u32 {
        self.token_count
    }

    /// The owner of each token.
    pub closed spec fn owners(&self) -> Map<u32, Address> {
        self.owners@
    }

    /// The tokens of each owner, in the order received.
    pub closed spec fn holdings(&self) -> Map<Seq<char>, Seq<u32>> {
        self.owner_tokens.view_map().map_values(|v: Vec<u32>| v@)
    }

    pub closed spec fn token_metadata_map(&self) -> Map<u32, VestingNFTMetadata> {
        self.metadata@
    }

    pub closed spec fn vault_refs(&self) -> Map<u32, VaultReference> {
        self.vault_refs@
    }

    pub closed spec fn locked(&self) -> bool {
        self.transfer_lock
    }

    pub open spec fn tokens_held(&self, owner: Seq<char>) -> Seq<u32> {
        if self.holdings().contains_key(owner) { self.holdings()[owner] } else { Seq::empty() }
    }

    pub fn new() -> (w: Self)
        ensures
            w.admin() is None,
            w.supply() == 0,
            w.owners() == Map::<u32, Address>::empty(),
            w.holdings() == Map::<Seq<char>, Seq<u32>>::empty(),
            !w.locked(),
    {
        let w = VestingNFTWrapper {
            admin: None,
            vesting_contract: None,
            name: None,
            symbol: None,
            token_count: 0,
            owners: HashMap::new(),
            owner_tokens: StrMap::new(),
            metadata: HashMap::new(),
            vault_refs: HashMap::new(),
            transfer_lock: false,
        };
        assert(w.holdings() =~= Map::<Seq<char>, Seq<u32>>::empty());
        w
    }

    /// Sets the admin, the wrapped vesting contract, the name and the symbol,
    /// once.
    pub fn initialize(&mut self, admin: Address, vesting_contract: Address, name: String, symbol: String)
        requires
            old(self).admin() is None,
        ensures
            final(self).admin() == Some(admin),
            final(self).vesting_contract() == Some(vesting_contract),
            final(self).token_name() == Some(name),
            final(self).token_symbol() == Some(symbol),
            final(self).supply() == 0,
            !final(self).locked(),
            final(self).owners() == old(self).owners(),
            final(self).holdings() == old(self).holdings(),
    {
        self.admin = Some(admin);
        self.vesting_contract = Some(vesting_contract);
        self.name = Some(name);
        self.symbol = Some(symbol);
        self.token_count = 0;
        self.transfer_lock = false;
    }

    fn add_token_to_owner(&mut self, owner: &Address, token_id: u32)
        ensures
            final(self).holdings() == old(self).holdings().insert(owner@, old(self).tokens_held(owner@).push(token_id)),
            final(self).owners() == old(self).owners(),
            final(self).admin() == old(self).admin(),
            final(self).vesting_contract() == old(self).vesting_contract(),
            final(self).token_name() == old(self).token_name(),
            final(self).token_symbol() == old(self).token_symbol(),
            final(self).supply() == old(self).supply(),
            final(self).token_metadata_map() == old(self).token_metadata_map(),
            final(self).vault_refs() == old(self).vault_refs(),
            final(self).locked() == old(self).locked(),
    {
        let mut tokens: Vec<u32> = match self.owner_tokens.get(owner) {
            Some(t) => t.clone(),
            None => Vec::new(),
        };
        tokens.push(token_id);
        let ghost pushed = tokens@;
        self.owner_tokens.insert(owner.clone(), tokens);
        assert(self.holdings() =~= old(self).holdings().insert(owner@, pushed));
    }

    fn remove_token_from_owner(&mut self, owner: &Address, token_id: u32)
        ensures
            final(self).holdings() == old(self).holdings().insert(owner@, without_token(old(self).tokens_held(owner@), token_id)),
            final(self).owners() == old(self).owners(),
            final(self).admin() == old(self).admin(),
            final(self).vesting_contract() == old(self).vesting_contract(),
            final(self).token_name() == old(self).token_name(),
            final(self).token_symbol() == old(self).token_symbol(),
            final(self).supply() == old(self).supply(),
            final(self).token_metadata_map() == old(self).token_metadata_map(),
            final(self).vault_refs() == old(self).vault_refs(),
            final(self).locked() == old(self).locked(),
    {
        let tokens: Vec<u32> = match self.owner_tokens.get(owner) {
            Some(t) => t.clone(),
            None => Vec::new(),
        };
        let mut kept: Vec<u32> = Vec::new();
        let mut i: usize = 0;
        while i < tokens.len()
            invariant
                i <= tokens.len(),
                kept@ == without_token(tokens@.take(i as int), token_id),
            decreases tokens.len() - i,
        {
            assert(tokens@.take(i + 1).drop_last() =~= tokens@.take(i as int));
            if tokens[i] != token_id {
                kept.push(tokens[i]);
            }
            i = i + 1;
        }
        assert(tokens@.take(i as int) =~= tokens@);
        let ghost k = kept@;
        self.owner_tokens.insert(owner.clone(), kept);
        assert(self.holdings() =~= old(self).holdings().insert(owner@, k));
    }

    /// The admin mints a token wrapping a transferable vault, described by
    /// `vault_info` as the vesting contract reports it, for `to` at `now`.
    /// The vault's beneficiary is to become the wrapper itself.
    pub fn mint_vesting_nft(
        &mut self,
        vault_id: u64,
        to: Address,
        vault_info: VaultInfo,
        wrapper_address: Address,
        now: u64,
    ) -> (r: (u32, BeneficiaryUpdate))
        requires
            old(self).admin() is Some,
            old(self).vesting_contract() is Some,
            vault_info.is_transferable,
            old(self).supply() < u32::MAX,
        ensures
            ({
                let id = r.0;
                let vc = old(self).vesting_contract()->Some_0;
                &&& id == old(self).supply() + 1
                &&& final(self).supply() == id
                &&& final(self).owners() == old(self).owners().insert(id, to)
                &&& final(self).holdings() == old(self).holdings().insert(to@, old(self).tokens_held(to@).push(id))
                &&& final(self).token_metadata_map() == old(self).token_metadata_map().insert(id, VestingNFTMetadata {
                    vault_id,
                    vesting_contract: vc,
                    total_amount: vault_info.total_amount,
                    start_time: vault_info.start_time,
                    end_time: vault_info.end_time,
                    created_at: now,
                    title: vault_info.title,
                })
                &&& final(self).vault_refs() == old(self).vault_refs().insert(id, VaultReference { vesting_contract: vc, vault_id })
                &&& r.1 == (BeneficiaryUpdate { vesting_contract: vc, vault_id, new_beneficiary: wrapper_address })
                &&& final(self).admin() == old(self).admin()
                &&& final(self).vesting_contract() == old(self).vesting_contract()
                &&& final(self).locked() == old(self).locked()
            }),
    {
        let vesting_contract = self.vesting_contract.as_ref().unwrap().clone();
        let token_id = self.token_count + 1;
        self.token_count = token_id;
        let metadata = VestingNFTMetadata {
            vault_id,
            vesting_contract: vesting_contract.clone(),
            total_amount: vault_info.total_amount,
            start_time: vault_info.start_time,
            end_time: vault_info.end_time,
            created_at: now,
            title: vault_info.title,
        };
        let vault_ref = VaultReference { vesting_contract: vesting_contract.clone(), vault_id };
        self.owners.insert(token_id, to.clone());
        self.metadata.insert(token_id, metadata);
        self.vault_refs.insert(token_id, vault_ref);
        self.add_token_to_owner(&to, token_id);
        (token_id, BeneficiaryUpdate { vesting_contract, vault_id, new_beneficiary: wrapper_address })
    }

    /// The owner of a token hands it to `to`; the claim rights follow, so
    /// the vault's beneficiary is to become `to`.
    pub fn transfer(&mut self, token_id: u32, to: Address) -> (u: BeneficiaryUpdate)
        requires
            !old(self).locked(),
            old(self).owners().contains_key(token_id),
            old(self).owners()[token_id]@ != to@,
            old(self).vault_refs().contains_key(token_id),
        ensures
            ({
                let from = old(self).owners()[token_id];
                let vr = old(self).vault_refs()[token_id];
                let cleared = old(self).holdings().insert(from@, without_token(old(self).tokens_held(from@), token_id));
                let cleared_to = if cleared.contains_key(to@) { cleared[to@] } else { Seq::<u32>::empty() };
                &&& final(self).owners() == old(self).owners().insert(token_id, to)
                &&& final(self).holdings() == cleared.insert(to@, cleared_to.push(token_id))
                &&& u == (BeneficiaryUpdate { vesting_contract: vr.vesting_contract, vault_id: vr.vault_id, new_beneficiary: to })
                &&& final(self).supply() == old(self).supply()
                &&& final(self).vault_refs() == old(self).vault_refs()
                &&& final(self).token_metadata_map() == old(self).token_metadata_map()
                &&& final(self).locked() == old(self).locked()
            }),
    {
        let from = self.owners.get(&token_id).unwrap().clone();
        let vault_ref = self.vault_refs.get(&token_id).unwrap().duplicate();
        self.owners.insert(token_id, to.clone());
        self.remove_token_from_owner(&from, token_id);
        self.add_token_to_owner(&to, token_id);
        BeneficiaryUpdate { vesting_contract: vault_ref.vesting_contract, vault_id: vault_ref.vault_id, new_beneficiary: to }
    }

    /// The claim the holder of a token asks the vesting contract to pay.
    pub fn claim_tokens(&self, token_id: u32, claim_amount: i128) -> (c: ClaimRequest)
        requires
            self.owners().contains_key(token_id),
            self.vault_refs().contains_key(token_id),
        ensures
            c == (ClaimRequest {
                vesting_contract: self.vault_refs()[token_id].vesting_contract,
                vault_id: self.vault_refs()[token_id].vault_id,
                claim_amount,
            }),
    {
        let vault_ref = self.vault_refs.get(&token_id).unwrap();
        ClaimRequest { vesting_contract: vault_ref.vesting_contract.clone(), vault_id: vault_ref.vault_id, claim_amount }
    }

    /// The vault whose claimable amount a token's holder may ask for.
    pub fn get_claimable_amount(&self, token_id: u32) -> (r: &VaultReference)
        requires
            self.vault_refs().contains_key(token_id),
        ensures
            *r == self.vault_refs()[token_id],
    {
        self.vault_refs.get(&token_id).unwrap()
    }

    pub fn owner_of(&self, token_id: u32) -> (a: &Address)
        requires
            self.owners().contains_key(token_id),
        ensures
            *a == self.owners()[token_id],
    {
        self.owners.get(&token_id).unwrap()
    }

    pub fn balance_of(&self, owner: &Address) -> (n: u32)
        requires
            self.tokens_held(owner@).len() <= u32::MAX,
        ensures
            n == self.tokens_held(owner@).len(),
    {
        match self.owner_tokens.get(owner) {
            Some(t) => t.len() as u32,
            None => 0,
        }
    }

    pub fn tokens_of_owner(&self, owner: &Address) -> (v: Vec<u32>)
        ensures
            v@ == self.tokens_held(owner@),
    {
        match self.owner_tokens.get(owner) {
            Some(t) => t.clone(),
            None => Vec::new(),
        }
    }

    pub fn token_metadata(&self, token_id: u32) -> (m: &VestingNFTMetadata)
        requires
            self.token_metadata_map().contains_key(token_id),
        ensures
            *m == self.token_metadata_map()[token_id],
    {
        self.metadata.get(&token_id).unwrap()
    }

    pub fn token_vault_reference(&self, token_id: u32) -> (r: &VaultReference)
        requires
            self.vault_refs().contains_key(token_id),
        ensures
            *r == self.vault_refs()[token_id],
    {
        self.vault_refs.get(&token_id).unwrap()
    }

    pub fn name(&self) -> (n: &String)
        requires
            self.token_name() is Some,
        ensures
            Some(*n) == self.token_name(),
    {
        self.name.as_ref().unwrap()
    }

    pub fn symbol(&self) -> (s: &String)
        requires
            self.token_symbol() is Some,
        ensures
            Some(*s) == self.token_symbol(),
    {
        self.symbol.as_ref().unwrap()
    }

    pub fn total_supply(&self) -> (n: u32)
        ensures
            n == self.supply(),
    {
        self.token_count
    }

    pub fn set_transfer_lock(&mut self, locked: bool)
        requires
            old(self).admin() is Some,
        ensures
            final(self).locked() == locked,
            final(self).owners() == old(self).owners(),
            final(self).holdings() == old(self).holdings(),
            final(self).supply() == old(self).supply(),
    {
        self.transfer_lock = locked;
    }

    pub fn is_transfer_locked(&self) -> (b: bool)
        ensures
            b == self.locked(),
    {
        self.transfer_lock
    }
    /// Whether the token is minted: it has an owner and a vault reference.
    pub fn token_exists(&self, token_id: u32) -> (b: bool)
        ensures
            b == (self.owners().contains_key(token_id) && self.vault_refs().contains_key(token_id)),
    {
        self.owners.contains_key(&token_id) && self.vault_refs.contains_key(&token_id)
    }
}

} // verus!
