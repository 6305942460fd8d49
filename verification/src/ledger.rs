//! The ledger: every client's account, and the routing of records to them.

use crate::client::Client;
use crate::model::route;
use crate::model::route_all;
use crate::model::ClientView;
use crate::transaction::Transaction;
use crate::transaction::TransactionView;
use std::collections::HashMap;
use vstd::prelude::*;

verus! {

broadcast use vstd::std_specs::hash::group_hash_axioms;

/// What a stream of records stands for.
pub open spec fn views(txs: Seq<Transaction>) -> Seq<TransactionView> {
    txs.map_values(|t: Transaction| t@)
}

/// The accounts of all clients seen so far, by client id.
#[derive(Debug)]
pub struct Ledger {
    clients: HashMap<u16, Client>,
}

impl View for Ledger {
    type V = Map<u16, ClientView>;

    closed spec fn view(&self) -> Map<u16, ClientView> {
        self.clients@.map_values(|c: Client| c@)
    }
}

impl Ledger {
    /// Every account is well formed and stands under its client's id.
    pub closed spec fn wf(&self) -> bool {
        forall|id: u16| #[trigger]
            self.clients@.contains_key(id) ==> self.clients@[id].wf() && self.clients@[id]@.id
                == id
    }

    /// What `wf` says of the accounts as mathematics.
    pub proof fn lemma_wf(&self)
        requires
            self.wf(),
        ensures
            self@.dom().finite(),
            forall|id: u16| #[trigger]
                self@.contains_key(id) ==> self@[id].id == id && self@[id].balanced(),
    {
        assert forall|id: u16| #[trigger] self@.contains_key(id) implies self@[id].id == id
            && self@[id].balanced() by {
            self.clients@[id].lemma_wf();
        }
        assert(self@.dom() =~= self.clients@.dom());
    }

    /// A ledger without accounts.
    pub fn new() -> (l: Ledger)
        ensures
            l.wf(),
            l@ == Map::<u16, ClientView>::empty(),
    {
        let l = Ledger { clients: HashMap::new() };
        assert(l@ =~= Map::empty());
        l
    }

    /// The number of accounts.
    pub fn len(&self) -> (n: usize)
        ensures
            n == self@.dom().len(),
    {
        assert(self@.dom() =~= self.clients@.dom());
        self.clients.len()
    }

    /// The account of client `id`, if the client was seen.
    pub fn get(&self, id: u16) -> (r: Option<&Client>)
        requires
            self.wf(),
        ensures
            match r {
                Some(c) => self@.contains_key(id) && self@[id] == c@ && c.wf(),
                None => !self@.contains_key(id),
            },
    {
        self.clients.get(&id)
    }

    /// Hands one record to the account of its client, which is opened first
    /// if the client is new.
    pub fn process(&mut self, transaction: &Transaction)
        requires
            old(self).wf(),
        ensures
            final(self).wf(),
            final(self)@ == route(old(self)@, transaction@),
    {
        let id: u16 = transaction.client_id();
        let mut client = match self.clients.remove(&id) {
            Some(c) => c,
            None => Client::new(id),
        };
        client.process_transaction(transaction);
        self.clients.insert(id, client);
        assert(self@ =~= route(old(self)@, transaction@));
    }

    /// Hands a stream of records to the accounts, in order.
    pub fn process_all(&mut self, transactions: &Vec<Transaction>)
        requires
            old(self).wf(),
        ensures
            final(self).wf(),
            final(self)@ == route_all(old(self)@, views(transactions@)),
    {
        let mut i: usize = 0;
        while i < transactions.len()
            invariant
                i <= transactions.len(),
                self.wf(),
                self@ == route_all(old(self)@, views(transactions@.take(i as int))),
            decreases transactions.len() - i,
        {
            self.process(&transactions[i]);
            proof {
                let done = views(transactions@.take(i as int));
                let next = views(transactions@.take(i + 1));
                assert(next.drop_last() =~= done);
                assert(next.last() == transactions[i as int]@);
            }
            i += 1;
        }
        assert(transactions@.take(i as int) =~= transactions@);
    }

    /// The ids of the clients seen so far, in ascending order.
    pub fn client_ids(&self) -> (ids: Vec<u16>)
        ensures
            forall|i: int, j: int| 0 <= i < j < ids.len() ==> ids[i] < ids[j],
            forall|id: u16| ids@.contains(id) <==> self@.contains_key(id),
    {
        let mut ids: Vec<u16> = Vec::new();
        let mut next: u32 = 0;
        while next <= 0xffff
            invariant
                next <= 0x1_0000,
                forall|i: int, j: int| 0 <= i < j < ids.len() ==> ids[i] < ids[j],
                forall|i: int| 0 <= i < ids.len() ==> ids[i] < next && self@.contains_key(ids[i]),
                forall|k: u16| k < next && #[trigger] self@.contains_key(k) ==> ids@.contains(k),
            decreases 0x1_0000 - next,
        {
            let id: u16 = next as u16;
            if self.clients.contains_key(&id) {
                let ghost before = ids@;
                ids.push(id);
                assert forall|k: u16| k <= id && #[trigger] self@.contains_key(k) implies ids@.contains(
                    k,
                ) by {
                    if k < id {
                        let i = before.index_of(k);
                        assert(ids@[i] == k);
                    } else {
                        assert(ids@[ids.len() - 1] == k);
                    }
                }
            }
            next += 1;
        }
        ids
    }
}

} // verus!
