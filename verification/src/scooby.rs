//! The ledger: one balance per account, and a commitment that gates credits.

use vstd::prelude::*;
use crate::account::AccountId;
use crate::commitment::{is_commitment_of, is_signature_text, matches_commitment};
use crate::filemap::{value_at, _FileMap};

verus! {

/// Why a ledger operation had no effect.
#[derive(Clone, Copy, Debug, PartialEq, Eq, Structural)]
pub enum LedgerError {
    /// The balance was not above the attached value, or the supplied data was
    /// not the commitment.
    InvalidDeposit,
    /// The deposit counts, but the credited balance would not fit.
    BalanceOverflow,
    /// The account has no recorded balance.
    AccountNotFound,
}

/// A deposit counts when the account already holds more than it attaches and
/// the supplied data is the stored commitment itself.
pub open spec fn deposit_valid(
    balance: u128,
    tx_val: u128,
    datahash: Seq<u8>,
    ext_data: Seq<u8>,
) -> bool {
    balance > tx_val && datahash == ext_data
}

/// The balance that a deposit leads to. A deposit that does not count gives
/// `InvalidDeposit`; one that counts but whose sum is too large to be
/// recorded gives `BalanceOverflow`.
pub fn credited_balance(balance: u128, tx_val: u128, datahash: &Vec<u8>, ext_data: &Vec<u8>) -> (r:
    Result<u128, LedgerError>)
    ensures
        r == (if !deposit_valid(balance, tx_val, datahash@, ext_data@) {
            Err::<u128, LedgerError>(LedgerError::InvalidDeposit)
        } else if balance + tx_val > u128::MAX {
            Err::<u128, LedgerError>(LedgerError::BalanceOverflow)
        } else {
            Ok::<u128, LedgerError>((balance + tx_val) as u128)
        }),
{
    if !(balance > tx_val && matches_commitment(datahash, ext_data)) {
        Err(LedgerError::InvalidDeposit)
    } else if tx_val > u128::MAX - balance {
        Err(LedgerError::BalanceOverflow)
    } else {
        Ok(balance + tx_val)
    }
}

/// What a withdrawal pays out: the whole recorded balance, or
/// `AccountNotFound` when `entry` shows that none is recorded.
pub fn withdrawn_amount(entry: Option<u128>) -> (r: Result<u128, LedgerError>)
    ensures
        r == (match entry {
            Some(balance) => Ok::<u128, LedgerError>(balance),
            None => Err::<u128, LedgerError>(LedgerError::AccountNotFound),
        }),
{
    match entry {
        Some(balance) => Ok(balance),
        None => Err(LedgerError::AccountNotFound),
    }
}

/// The ledger's state: the balances, the payload it was made from, and the
/// commitment derived from that payload when the ledger was made.
pub struct Scooby {
    pub balances: _FileMap<AccountId, u128>,
    pub rawdata: Vec<u8>,
    pub datahash: Vec<u8>,
}

impl Default for Scooby {
    /// A ledger without balances, payload or commitment.
    fn default() -> (r: Self)
        ensures
            r.wf(),
            r.balances@ == Map::<AccountId, u128>::empty(),
            r.rawdata@ == Seq::<u8>::empty(),
            r.datahash@ == Seq::<u8>::empty(),
    {
        Scooby { balances: _FileMap::new(), rawdata: Vec::new(), datahash: Vec::new() }
    }
}

impl Scooby {
    /// The validity of a ledger: that of its balance map.
    pub open spec fn wf(&self) -> bool {
        self.balances.wf()
    }

    /// The balance of `account`: zero where none is recorded.
    pub open spec fn balance(&self, account: AccountId) -> u128 {
        value_at(self.balances@, account)
    }

    /// A ledger for the payload `rawdata`: no balances yet, and a commitment
    /// derived from the payload once, here.
    pub fn new(rawdata: Vec<u8>) -> (r: Self)
        ensures
            r.wf(),
            r.balances@ == Map::<AccountId, u128>::empty(),
            forall|account: AccountId| r.balance(account) == 0,
            r.rawdata == rawdata,
            is_commitment_of(r.datahash@, rawdata@),
            is_signature_text(r.datahash@),
    {
        let datahash = crate::commitment::derive(&rawdata);
        let balances = _FileMap::new();
        Scooby { balances, rawdata, datahash }
    }

    /// Credits `tx_val` to the balance of `caller` if the deposit counts, and
    /// does nothing, silently, if it does not.
    pub fn validate_data_and_transfer(&mut self, caller: AccountId, tx_val: u128, ext_data: Vec<u8>)
        requires
            old(self).wf(),
            deposit_valid(old(self).balance(caller), tx_val, old(self).datahash@, ext_data@)
                ==> old(self).balance(caller) + tx_val <= u128::MAX,
        ensures
            final(self).wf(),
            final(self).rawdata == old(self).rawdata,
            final(self).datahash == old(self).datahash,
            final(self).balances@.dom() == old(self).balances@.dom(),
            final(self).balances@ == (if deposit_valid(
                old(self).balance(caller),
                tx_val,
                old(self).datahash@,
                ext_data@,
            ) {
                old(self).balances@.insert(caller, (old(self).balance(caller) + tx_val) as u128)
            } else {
                old(self).balances@
            }),
            final(self).balance(caller) == (if deposit_valid(
                old(self).balance(caller),
                tx_val,
                old(self).datahash@,
                ext_data@,
            ) {
                (old(self).balance(caller) + tx_val) as u128
            } else {
                old(self).balance(caller)
            }),
            forall|other: AccountId|
                other != caller ==> final(self).balance(other) == old(self).balance(other),
    {
        let balance = self.balances._get(&caller);
        match credited_balance(balance, tx_val, &self.datahash, &ext_data) {
            Ok(credited) => {
                self.balances._set(caller, credited);
                assert(self.balances@.dom() =~= old(self).balances@.dom());
            },
            Err(_) => {},
        }
    }

    /// Does nothing to the ledger.
    pub fn get(&self) {
        let _ = Scooby::default();
    }

    /// Closes the account of `caller`: its entry leaves the ledger and its
    /// balance is handed back, to be paid out. Without an entry nothing
    /// changes and the call fails with `AccountNotFound`.
    pub fn scooby_withdraw(&mut self, caller: AccountId) -> (r: Result<u128, LedgerError>)
        requires
            old(self).wf(),
        ensures
            final(self).wf(),
            final(self).rawdata == old(self).rawdata,
            final(self).datahash == old(self).datahash,
            old(self).balances@.contains_key(caller) ==> r == Ok::<u128, LedgerError>(
                old(self).balances@[caller],
            ) && final(self).balances@ == old(self).balances@.remove(caller),
            !old(self).balances@.contains_key(caller) ==> r == Err::<u128, LedgerError>(
                LedgerError::AccountNotFound,
            ) && *final(self) == *old(self),
            final(self).balance(caller) == 0,
            forall|other: AccountId|
                other != caller ==> final(self).balance(other) == old(self).balance(other),
    {
        let amount = withdrawn_amount(self.balances._lookup(&caller));
        if amount.is_ok() {
            self.balances._remove(&caller);
        }
        amount
    }

    /// The recorded balance of `caller`, zero where there is none.
    pub fn scooby_balance(&self, caller: AccountId) -> (r: u128)
        requires
            self.wf(),
        ensures
            r == self.balance(caller),
    {
        self.balances._get(&caller)
    }

    /// Derives a commitment from `rawdata` afresh. The result is a new
    /// derivation: it need not be the commitment that this ledger stores,
    /// whatever the payload.
    pub fn get_valid_datahash(&self, rawdata: Vec<u8>) -> (r: Option<Vec<u8>>)
        ensures
            r.is_some(),
            is_commitment_of(r.unwrap()@, rawdata@),
            is_signature_text(r.unwrap()@),
    {
        Some(crate::commitment::derive(&rawdata))
    }

    /// A new ledger for `rawdata`, made as `new` makes it.
    pub fn match_valid_scooby(&self, rawdata: Vec<u8>) -> (r: Option<Self>)
        ensures
            r.is_some(),
            r.unwrap().wf(),
            r.unwrap().balances@ == Map::<AccountId, u128>::empty(),
            r.unwrap().rawdata == rawdata,
            is_commitment_of(r.unwrap().datahash@, rawdata@),
            is_signature_text(r.unwrap().datahash@),
    {
        Some(Self::new(rawdata))
    }
}

} // verus!
