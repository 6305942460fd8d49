//! The account state machine as mathematics.
//!
//! An account is a record of integers, each a count of the smallest unit
//! (`10^-PRECISION`), and a history of the deposits and withdrawals it has
//! taken. [`step`] says what one record does to an account; [`replay`] folds a
//! whole stream of records over it. [`route`] and [`route_all`] do the same
//! for all accounts together, each record going to its own client.

use crate::transaction::TransactionType;
use crate::transaction::TransactionView;
use vstd::prelude::*;

verus! {

/// One deposit or withdrawal in an account's history.
pub struct EntryView {
    pub tx_id: u32,
    pub kind: TransactionType,
    /// The amount in units of `10^-PRECISION`.
    pub amount: int,
    /// Whether the amount is held at present.
    pub disputed: bool,
}

impl EntryView {
    /// What the entry adds to the held funds: its amount while it is under
    /// dispute, nothing otherwise.
    pub open spec fn held_part(self) -> int {
        if self.disputed {
            self.amount
        } else {
            0
        }
    }
}

/// The amounts of all entries under dispute together.
pub open spec fn disputed_total(entries: Map<u32, EntryView>) -> int
    decreases entries.dom().len(),
    when entries.dom().finite()
{
    if entries.dom().len() == 0 {
        0
    } else {
        let k = entries.dom().choose();
        entries[k].held_part() + disputed_total(entries.remove(k))
    }
}

/// An account: its balances in units of `10^-PRECISION`, its lock, and its
/// history by record id.
pub struct ClientView {
    pub id: u16,
    pub available: int,
    pub held: int,
    pub total: int,
    pub locked: bool,
    pub entries: Map<u32, EntryView>,
}

impl ClientView {
    /// The account of client `id` before any record: no funds, no history,
    /// not locked.
    pub open spec fn fresh(id: u16) -> ClientView {
        ClientView {
            id,
            available: 0,
            held: 0,
            total: 0,
            locked: false,
            entries: Map::empty(),
        }
    }

    /// The total is what is available and what is held together.
    pub open spec fn balanced(self) -> bool {
        self.total == self.available + self.held
    }

    /// The history is finite and holds no negative amount, and the held
    /// funds are not negative. Until the account is locked the held funds are
    /// exactly the amounts under dispute.
    pub open spec fn consistent(self) -> bool {
        &&& self.entries.dom().finite()
        &&& forall|k: u32| #[trigger] self.entries.contains_key(k) ==> self.entries[k].amount >= 0
        &&& self.held >= 0
        &&& !self.locked ==> self.held == disputed_total(self.entries)
    }

    /// Record `tx_id` is in the history and under dispute.
    pub open spec fn is_disputed(self, tx_id: u32) -> bool {
        self.entries.contains_key(tx_id) && self.entries[tx_id].disputed
    }

    /// Record `tx_id` is in the history and not under dispute.
    pub open spec fn is_settled(self, tx_id: u32) -> bool {
        self.entries.contains_key(tx_id) && !self.entries[tx_id].disputed
    }

    /// The account with `amount` entered in its history as record `tx_id`,
    /// not under dispute. An earlier record of that id is replaced.
    pub open spec fn with_entry(self, tx_id: u32, kind: TransactionType, amount: int) -> ClientView {
        ClientView {
            entries: self.entries.insert(
                tx_id,
                EntryView { tx_id, kind, amount, disputed: false },
            ),
            ..self
        }
    }

    /// The account with the dispute mark of record `tx_id` set to `disputed`.
    pub open spec fn with_mark(self, tx_id: u32, disputed: bool) -> ClientView {
        ClientView {
            entries: self.entries.insert(
                tx_id,
                EntryView { disputed, ..self.entries[tx_id] },
            ),
            ..self
        }
    }

    /// A deposit of `amount`: the funds become available, and the deposit
    /// enters the history.
    pub open spec fn deposit(self, tx_id: u32, amount: int) -> ClientView {
        ClientView {
            available: self.available + amount,
            total: self.total + amount,
            ..self
        }.with_entry(tx_id, TransactionType::Deposit, amount)
    }

    /// A withdrawal of `amount`: where the available funds cover it, they
    /// shrink by it and the withdrawal enters the history; where they do not,
    /// nothing changes.
    pub open spec fn withdraw(self, tx_id: u32, amount: int) -> ClientView {
        if amount <= self.available {
            ClientView {
                available: self.available - amount,
                total: self.total - amount,
                ..self
            }.with_entry(tx_id, TransactionType::Withdrawal, amount)
        } else {
            self
        }
    }

    /// A dispute of record `tx_id`: where the record is in the history and
    /// not yet under dispute, its amount moves from available to held.
    pub open spec fn dispute(self, tx_id: u32) -> ClientView {
        if self.is_settled(tx_id) {
            let amount = self.entries[tx_id].amount;
            ClientView {
                available: self.available - amount,
                held: self.held + amount,
                ..self
            }.with_mark(tx_id, true)
        } else {
            self
        }
    }

    /// A resolve of record `tx_id`: where the record is under dispute, its
    /// amount moves back from held to available.
    pub open spec fn resolve(self, tx_id: u32) -> ClientView {
        if self.is_disputed(tx_id) {
            let amount = self.entries[tx_id].amount;
            ClientView {
                available: self.available + amount,
                held: self.held - amount,
                ..self
            }.with_mark(tx_id, false)
        } else {
            self
        }
    }

    /// A chargeback of record `tx_id`: where the record is under dispute, its
    /// amount leaves the held funds and the account, and the account is
    /// locked. The record stays marked as disputed.
    pub open spec fn chargeback(self, tx_id: u32) -> ClientView {
        if self.is_disputed(tx_id) {
            let amount = self.entries[tx_id].amount;
            ClientView {
                held: self.held - amount,
                total: self.total - amount,
                locked: true,
                ..self
            }
        } else {
            self
        }
    }
}

/// The account after one record. A locked account takes no record of any
/// kind; a deposit or a withdrawal without an amount does nothing. The amount
/// counts in units of `10^-PRECISION`.
pub open spec fn step(c: ClientView, tx: TransactionView) -> ClientView {
    if c.locked {
        c
    } else {
        match tx.kind {
            TransactionType::Deposit => match tx.amount {
                Some(a) => c.deposit(tx.tx_id, a.units()),
                None => c,
            },
            TransactionType::Withdrawal => match tx.amount {
                Some(a) => c.withdraw(tx.tx_id, a.units()),
                None => c,
            },
            TransactionType::Dispute => c.dispute(tx.tx_id),
            TransactionType::Resolve => c.resolve(tx.tx_id),
            TransactionType::Chargeback => c.chargeback(tx.tx_id),
        }
    }
}

/// The account after a stream of records, taken in order.
pub open spec fn replay(c: ClientView, txs: Seq<TransactionView>) -> ClientView
    decreases txs.len(),
{
    if txs.len() == 0 {
        c
    } else {
        step(replay(c, txs.drop_last()), txs.last())
    }
}

/// The accounts after one record: the record goes to the account of its
/// client, which is opened first if the client is new. No other account
/// changes.
pub open spec fn route(accounts: Map<u16, ClientView>, tx: TransactionView) -> Map<
    u16,
    ClientView,
> {
    let account = if accounts.contains_key(tx.client_id) {
        accounts[tx.client_id]
    } else {
        ClientView::fresh(tx.client_id)
    };
    accounts.insert(tx.client_id, step(account, tx))
}

/// The accounts after a stream of records, taken in order.
pub open spec fn route_all(accounts: Map<u16, ClientView>, txs: Seq<TransactionView>) -> Map<
    u16,
    ClientView,
>
    decreases txs.len(),
{
    if txs.len() == 0 {
        accounts
    } else {
        route(route_all(accounts, txs.drop_last()), txs.last())
    }
}

} // verus!
