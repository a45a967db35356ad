//! Contract-wide configuration: the admin, the token whitelist and the protocol fee.
use vstd::prelude::*;

verus! {

use crate::model::fee_ok;
use crate::settlement::contains_account;
use crate::types::{AccountId, ChainSettleError, Config, FeeConfig, MAX_FEE_BPS};

/// The whitelist after `token` is added: unchanged when already listed.
pub open spec fn with_token(list: Seq<AccountId>, token: AccountId) -> Seq<AccountId> {
    if list.contains(token) {
        list
    } else {
        list.push(token)
    }
}

/// The whitelist after `token` is removed, the others kept in order.
pub open spec fn without_token(list: Seq<AccountId>, token: AccountId) -> Seq<AccountId> {
    list.filter(other_than(token))
}

pub open spec fn other_than(token: AccountId) -> spec_fn(AccountId) -> bool {
    |t: AccountId| t != token
}

/// A token may fund shipments when the whitelist is empty or lists it.
pub open spec fn token_allowed(list: Seq<AccountId>, token: AccountId) -> bool {
    list.len() == 0 || list.contains(token)
}

impl Config {
    /// A configuration before `init`: no admin, no whitelist, no fee.
    pub fn new() -> (c: Config)
        ensures
            c.admin is None,
            c.allowed_tokens@.len() == 0,
            c.fee is None,
    {
        Config { admin: None, allowed_tokens: Vec::new(), fee: None }
    }

    /// Records `admin` as the contract's admin.
    pub fn init(&mut self, admin: AccountId)
        ensures
            final(self).admin == Some(admin),
            final(self).allowed_tokens@ == old(self).allowed_tokens@,
            final(self).fee == old(self).fee,
    {
        self.admin = Some(admin);
    }

    /// The admin adds `token` to the whitelist.
    pub fn add_allowed_token(&mut self, token: AccountId) -> (r: Result<(), ChainSettleError>)
        ensures
            r is Err <==> old(self).admin is None,
            r matches Err(e) ==> e == ChainSettleError::NotInitialised,
            r is Ok ==> final(self).allowed_tokens@ == with_token(old(self).allowed_tokens@, token),
            r is Err ==> final(self).allowed_tokens@ == old(self).allowed_tokens@,
            final(self).admin == old(self).admin,
            final(self).fee == old(self).fee,
    {
        if self.admin.is_none() {
            return Err(ChainSettleError::NotInitialised);
        }
        if !contains_account(&self.allowed_tokens, token) {
            self.allowed_tokens.push(token);
        }
        Ok(())
    }

    /// The admin removes `token` from the whitelist.
    pub fn remove_allowed_token(&mut self, token: AccountId) -> (r: Result<(), ChainSettleError>)
        ensures
            r is Err <==> old(self).admin is None,
            r matches Err(e) ==> e == ChainSettleError::NotInitialised,
            r is Ok ==> final(self).allowed_tokens@ == without_token(old(self).allowed_tokens@, token),
            r is Err ==> final(self).allowed_tokens@ == old(self).allowed_tokens@,
            final(self).admin == old(self).admin,
            final(self).fee == old(self).fee,
    {
        if self.admin.is_none() {
            return Err(ChainSettleError::NotInitialised);
        }
        let ghost list = self.allowed_tokens@;
        let mut kept: Vec<AccountId> = Vec::new();
        let mut k: usize = 0;
        while k < self.allowed_tokens.len()
            invariant
                list == self.allowed_tokens@,
                k <= list.len(),
                kept@ == without_token(list.take(k as int), token),
            decreases list.len() - k,
        {
            let t = self.allowed_tokens[k];
            proof {
                reveal_with_fuel(Seq::<_>::filter, 1);
                assert(list.take(k + 1).drop_last() =~= list.take(k as int));
                assert(list.take(k + 1).last() == t);
            }
            if t != token {
                kept.push(t);
            }
            proof {
                reveal_with_fuel(Seq::<_>::filter, 1);
                assert(kept@ =~= without_token(list.take(k + 1), token));
            }
            k = k + 1;
        }
        proof {
            assert(list.take(list.len() as int) =~= list);
        }
        self.allowed_tokens = kept;
        Ok(())
    }

    /// Whether `token` may fund a shipment.
    pub fn is_token_allowed(&self, token: AccountId) -> (b: bool)
        ensures
            b == token_allowed(self.allowed_tokens@, token),
    {
        self.allowed_tokens.len() == 0 || contains_account(&self.allowed_tokens, token)
    }

    /// The admin sets the protocol fee; at most `MAX_FEE_BPS`.
    pub fn set_fee_config(&mut self, caller: AccountId, fee_bps: u32, treasury: AccountId) -> (r: Result<
        (),
        ChainSettleError,
    >)
        ensures
            r is Ok <==> (old(self).admin == Some(caller) && fee_bps <= MAX_FEE_BPS),
            r matches Err(e) ==> (if old(self).admin != Some(caller) {
                e == ChainSettleError::Unauthorized
            } else {
                e == ChainSettleError::FeeTooHigh
            }),
            r is Ok ==> final(self).fee == Some(FeeConfig { fee_bps, treasury }),
            r is Err ==> final(self).fee == old(self).fee,
            final(self).admin == old(self).admin,
            final(self).allowed_tokens@ == old(self).allowed_tokens@,
            fee_ok(old(self).fee) ==> fee_ok(final(self).fee),
    {
        match self.admin {
            Some(a) => {
                if a != caller {
                    return Err(ChainSettleError::Unauthorized);
                }
            },
            None => {
                return Err(ChainSettleError::Unauthorized);
            },
        }
        if fee_bps > MAX_FEE_BPS {
            return Err(ChainSettleError::FeeTooHigh);
        }
        self.fee = Some(FeeConfig { fee_bps, treasury });
        Ok(())
    }

    pub fn get_fee_config(&self) -> (f: Option<FeeConfig>)
        ensures
            f == self.fee,
    {
        self.fee
    }
}

/// Law: a whitelisted token is allowed; adding a token twice is the same as adding
/// it once; a removed token is no longer listed, and removing it does not touch the
/// other tokens.
pub proof fn law_whitelist(list: Seq<AccountId>, token: AccountId, other: AccountId)
    ensures
        with_token(list, token).contains(token),
        token_allowed(with_token(list, token), token),
        with_token(with_token(list, token), token) == with_token(list, token),
        !without_token(list, token).contains(token),
        other != token ==> (without_token(list, token).contains(other) <==> list.contains(other)),
        !list.contains(token) ==> without_token(with_token(list, token), token) == without_token(list, token),
{
    let pred = other_than(token);
    let l2 = with_token(list, token);
    if !list.contains(token) {
        assert(l2[list.len() as int] == token);
    }
    if other != token {
        if list.contains(other) {
            let k = choose|k: int| 0 <= k < list.len() && list[k] == other;
            list.lemma_filter_contains(pred, k);
        }
        if without_token(list, token).contains(other) {
            list.lemma_filter_contains_rev(pred, other);
        }
    }
    if !list.contains(token) {
        assert(l2.drop_last() =~= list);
        reveal_with_fuel(Seq::<_>::filter, 1);
        assert(l2.filter(pred) =~= list.filter(pred));
    }
    if without_token(list, token).contains(token) {
        let f = list.filter(pred);
        let k = choose|k: int| 0 <= k < f.len() && f[k] == token;
        list.lemma_filter_pred(pred, k);
    }
}

} // verus!
