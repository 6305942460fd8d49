//! The records that drive the ledger.

use crate::decimal::Decimal;
use crate::decimal::DecimalView;
use vstd::prelude::*;

verus! {

/// The five kinds of record.
#[derive(Copy, Clone, Debug, PartialEq, Eq, Structural)]
pub enum TransactionType {
    /// A credit to the client's account.
    Deposit,
    /// A debit to the client's account; skipped when the account cannot
    /// cover it.
    Withdrawal,
    /// A claim that an earlier deposit or withdrawal was made in error; its
    /// funds are held until the claim is settled.
    Dispute,
    /// The end of a dispute in the client's favour: the held funds are
    /// released.
    Resolve,
    /// The end of a dispute against the client: the held funds leave the
    /// account, and the account is locked.
    Chargeback,
}

/// What a [`Transaction`] stands for.
pub struct TransactionView {
    pub kind: TransactionType,
    pub client_id: u16,
    pub tx_id: u32,
    pub amount: Option<DecimalView>,
}

/// One record of the input stream.
#[derive(Debug)]
pub struct Transaction {
    kind: TransactionType,
    client_id: u16,
    tx_id: u32,
    amount: Option<Decimal>,
}

impl View for Transaction {
    type V = TransactionView;

    closed spec fn view(&self) -> TransactionView {
        TransactionView {
            kind: self.kind,
            client_id: self.client_id,
            tx_id: self.tx_id,
            amount: match self.amount {
                Some(a) => Some(a@),
                None => None,
            },
        }
    }
}

impl Clone for Transaction {
    /// A copy that stands for the same record.
    fn clone(&self) -> (r: Transaction)
        ensures
            r@ == self@,
    {
        let amount = match &self.amount {
            Some(a) => Some(a.clone()),
            None => None,
        };
        Transaction { kind: self.kind, client_id: self.client_id, tx_id: self.tx_id, amount }
    }
}

impl Transaction {
    /// A record of the given kind. A deposit or a withdrawal carries its
    /// amount; the other kinds carry the id of the record they act upon and
    /// no amount.
    pub fn new(kind: TransactionType, client_id: u16, tx_id: u32, amount: Option<Decimal>) -> (r:
        Transaction)
        ensures
            r@.kind == kind,
            r@.client_id == client_id,
            r@.tx_id == tx_id,
            r@.amount == match amount {
                Some(a) => Some(a@),
                None => None::<DecimalView>,
            },
    {
        Transaction { kind, client_id, tx_id, amount }
    }

    /// The kind of the record.
    pub fn kind(&self) -> (r: TransactionType)
        ensures
            r == self@.kind,
    {
        self.kind
    }

    /// The account that the record belongs to.
    pub fn client_id(&self) -> (r: u16)
        ensures
            r == self@.client_id,
    {
        self.client_id
    }

    /// The id of the record, or of the record it acts upon.
    pub fn tx_id(&self) -> (r: u32)
        ensures
            r == self@.tx_id,
    {
        self.tx_id
    }

    /// The amount, where the record carries one.
    pub fn amount(&self) -> (r: Option<&Decimal>)
        ensures
            match r {
                Some(a) => self@.amount == Some(a@),
                None => self@.amount.is_none(),
            },
    {
        self.amount.as_ref()
    }
}

} // verus!
