//! One client's account: balances, lock and history, and the rules by which a
//! record changes them.

use crate::decimal::at_most;
use crate::decimal::difference;
use crate::decimal::rescale;
use crate::decimal::sum;
use crate::decimal::Decimal;
use crate::decimal::PRECISION;
use crate::model::step;
use crate::model::ClientView;
use crate::model::EntryView;
use crate::transaction::Transaction;
use crate::transaction::TransactionType;
use std::collections::HashMap;
use vstd::prelude::*;

verus! {

broadcast use vstd::std_specs::hash::group_hash_axioms;

/// A deposit or a withdrawal as the account keeps it.
#[derive(Debug)]
pub struct LedgerEntry {
    tx_id: u32,
    kind: TransactionType,
    amount: Decimal,
    disputed: bool,
}

impl View for LedgerEntry {
    type V = EntryView;

    closed spec fn view(&self) -> EntryView {
        EntryView {
            tx_id: self.tx_id,
            kind: self.kind,
            amount: self.amount@.unscaled,
            disputed: self.disputed,
        }
    }
}

impl LedgerEntry {
    /// The amount is written with `PRECISION` fractional digits.
    pub closed spec fn wf(&self) -> bool {
        self.amount@.scale == PRECISION
    }

    /// The id of the record.
    pub fn tx_id(&self) -> (r: u32)
        ensures
            r == self@.tx_id,
    {
        self.tx_id
    }

    /// Deposit or withdrawal.
    pub fn kind(&self) -> (r: TransactionType)
        ensures
            r == self@.kind,
    {
        self.kind
    }

    /// The amount of the record.
    pub fn amount(&self) -> (r: &Decimal)
        requires
            self.wf(),
        ensures
            r@.scale == PRECISION,
            r@.unscaled == self@.amount,
    {
        &self.amount
    }

    /// Whether the amount is held at present.
    pub fn disputed(&self) -> (r: bool)
        ensures
            r == self@.disputed,
    {
        self.disputed
    }
}

/// A client's account.
#[derive(Debug)]
pub struct Client {
    id: u16,
    available: Decimal,
    held: Decimal,
    total: Decimal,
    locked: bool,
    entries: HashMap<u32, LedgerEntry>,
}

impl View for Client {
    type V = ClientView;

    closed spec fn view(&self) -> ClientView {
        ClientView {
            id: self.id,
            available: self.available@.unscaled,
            held: self.held@.unscaled,
            total: self.total@.unscaled,
            locked: self.locked,
            entries: self.entries@.map_values(|e: LedgerEntry| e@),
        }
    }
}

impl Client {
    /// Every stored number is written with `PRECISION` fractional digits,
    /// every entry of the history stands under its own id, and the total is
    /// what is available and what is held together.
    pub closed spec fn wf(&self) -> bool {
        &&& self.stored_at_precision()
        &&& forall|k: u32| #[trigger]
            self.entries@.contains_key(k) ==> self.entries@[k].tx_id == k
        &&& self@.balanced()
    }

    /// Every stored number is written with `PRECISION` fractional digits.
    spec fn stored_at_precision(&self) -> bool {
        &&& self.available@.scale == PRECISION
        &&& self.held@.scale == PRECISION
        &&& self.total@.scale == PRECISION
        &&& forall|k: u32| #[trigger] self.entries@.contains_key(k) ==> self.entries@[k].wf()
    }

    /// What `wf` says of the account as mathematics.
    pub proof fn lemma_wf(&self)
        requires
            self.wf(),
        ensures
            self@.balanced(),
            forall|k: u32| #[trigger]
                self@.entries.contains_key(k) ==> self@.entries[k].tx_id == k,
    {
    }

    /// The account of client `id` before any record.
    pub fn new(id: u16) -> (c: Client)
        ensures
            c.wf(),
            c@ == ClientView::fresh(id),
            c@.balanced(),
    {
        let c = Client {
            id,
            available: Decimal::zero(),
            held: Decimal::zero(),
            total: Decimal::zero(),
            locked: false,
            entries: HashMap::new(),
        };
        assert(c@.entries =~= Map::empty());
        c
    }

    /// The id of the client.
    pub fn id(&self) -> (r: u16)
        ensures
            r == self@.id,
    {
        self.id
    }

    /// The funds that the client can use.
    pub fn available(&self) -> (r: &Decimal)
        requires
            self.wf(),
        ensures
            r@.scale == PRECISION,
            r@.unscaled == self@.available,
    {
        &self.available
    }

    /// The funds that are held while disputes last.
    pub fn held(&self) -> (r: &Decimal)
        requires
            self.wf(),
        ensures
            r@.scale == PRECISION,
            r@.unscaled == self@.held,
    {
        &self.held
    }

    /// The funds of the account, available and held.
    pub fn total(&self) -> (r: &Decimal)
        requires
            self.wf(),
        ensures
            r@.scale == PRECISION,
            r@.unscaled == self@.total,
    {
        &self.total
    }

    /// Whether the account is locked.
    pub fn locked(&self) -> (r: bool)
        ensures
            r == self@.locked,
    {
        self.locked
    }

    /// The entry of record `tx_id` in the history, if there is one.
    pub fn entry(&self, tx_id: u32) -> (r: Option<&LedgerEntry>)
        requires
            self.wf(),
        ensures
            match r {
                Some(e) => self@.entries.contains_key(tx_id) && self@.entries[tx_id] == e@
                    && e.wf(),
                None => !self@.entries.contains_key(tx_id),
            },
    {
        self.entries.get(&tx_id)
    }

    /// Enters `amount` in the history as record `tx_id`, not under dispute.
    fn add_transaction(&mut self, tx_id: u32, kind: TransactionType, amount: Decimal)
        requires
            old(self).wf(),
            amount@.scale == PRECISION,
        ensures
            final(self).wf(),
            final(self)@ == old(self)@.with_entry(tx_id, kind, amount@.unscaled),
    {
        let entry = LedgerEntry { tx_id, kind, amount, disputed: false };
        self.entries.insert(tx_id, entry);
        assert(self@.entries =~= old(self)@.entries.insert(tx_id, entry@));
    }

    /// Sets the dispute mark of `entry`, which was taken out of the history,
    /// and puts it back.
    fn put_back(&mut self, entry: LedgerEntry, disputed: bool)
        requires
            entry.wf(),
            old(self).stored_at_precision(),
        ensures
            final(self).stored_at_precision(),
            final(self).id == old(self).id,
            final(self).available == old(self).available,
            final(self).held == old(self).held,
            final(self).total == old(self).total,
            final(self).locked == old(self).locked,
            final(self).entries@ == old(self).entries@.insert(
                entry.tx_id,
                LedgerEntry { disputed, ..entry },
            ),
    {
        let tx_id: u32 = entry.tx_id;
        let marked = LedgerEntry { disputed, ..entry };
        self.entries.insert(tx_id, marked);
    }

    /// Applies one record to the account.
    ///
    /// A locked account takes no record. A deposit adds its amount to the
    /// available funds and to the total; a withdrawal takes its amount from
    /// both where the available funds cover it, and does nothing where they
    /// do not. A dispute moves the amount of an earlier record from available
    /// to held, a resolve moves it back, and a chargeback takes it out of the
    /// account and locks the account. A record that does not fit the state of
    /// the account changes nothing.
    pub fn process_transaction(&mut self, transaction: &Transaction)
        requires
            old(self).wf(),
        ensures
            final(self).wf(),
            final(self)@ == step(old(self)@, transaction@),
            final(self)@.balanced(),
            old(self)@.locked ==> final(self)@ == old(self)@,
    {
        if self.locked {
            return ;
        }
        let tx_id: u32 = transaction.tx_id();
        match transaction.kind() {
            TransactionType::Deposit => {
                if let Some(raw) = transaction.amount() {
                    let amount = rescale(raw, PRECISION);
                    self.available = sum(&self.available, &amount);
                    self.total = sum(&self.total, &amount);
                    self.add_transaction(tx_id, TransactionType::Deposit, amount);
                }
            },
            TransactionType::Withdrawal => {
                if let Some(raw) = transaction.amount() {
                    let amount = rescale(raw, PRECISION);
                    if at_most(&amount, &self.available) {
                        self.available = difference(&self.available, &amount);
                        self.total = difference(&self.total, &amount);
                        self.add_transaction(tx_id, TransactionType::Withdrawal, amount);
                    }
                }
            },
            TransactionType::Dispute => {
                if let Some(target) = self.entries.remove(&tx_id) {
                    if !target.disputed {
                        self.available = difference(&self.available, &target.amount);
                        self.held = sum(&self.held, &target.amount);
                    }
                    self.put_back(target, true);
                }
                assert(self@.entries =~= step(old(self)@, transaction@).entries);
            },
            TransactionType::Resolve => {
                if let Some(target) = self.entries.remove(&tx_id) {
                    if target.disputed {
                        self.held = difference(&self.held, &target.amount);
                        self.available = sum(&self.available, &target.amount);
                    }
                    self.put_back(target, false);
                }
                assert(self@.entries =~= step(old(self)@, transaction@).entries);
            },
            TransactionType::Chargeback => {
                if let Some(target) = self.entries.get(&tx_id) {
                    if target.disputed {
                        self.held = difference(&self.held, &target.amount);
                        self.total = difference(&self.total, &target.amount);
                        self.locked = true;
                    }
                }
            },
        }
    }
}

} // verus!
