//! What holds of the ledger, whatever the records are.
//!
//! Each law is stated over the mathematics of [`crate::model`], in which the
//! functions of [`crate::client`] and [`crate::ledger`] state what they do.

use crate::decimal::lemma_rescaled_down_loses_under_one_unit;
use crate::decimal::lemma_rescaled_keeps_sign;
use crate::decimal::lemma_rescaled_same_scale;
use crate::decimal::lemma_rescaled_up_is_exact;
use crate::decimal::rescaled;
use crate::decimal::DecimalView;
use crate::decimal::PRECISION;
use crate::model::disputed_total;
use crate::model::replay;
use crate::model::route;
use crate::model::route_all;
use crate::model::step;
use crate::model::ClientView;
use crate::model::EntryView;
use crate::transaction::TransactionType;
use crate::transaction::TransactionView;
use vstd::arithmetic::power::pow;
use vstd::prelude::*;

verus! {

// The total is what is available and what is held.

/// A record leaves the total equal to what is available and what is held
/// together.
pub proof fn lemma_step_keeps_balance(c: ClientView, tx: TransactionView)
    requires
        c.balanced(),
    ensures
        step(c, tx).balanced(),
{
}

/// After any stream of records the total is what is available and what is
/// held together.
pub proof fn lemma_replay_keeps_balance(c: ClientView, txs: Seq<TransactionView>)
    requires
        c.balanced(),
    ensures
        replay(c, txs).balanced(),
    decreases txs.len(),
{
    if txs.len() > 0 {
        lemma_replay_keeps_balance(c, txs.drop_last());
        lemma_step_keeps_balance(replay(c, txs.drop_last()), txs.last());
    }
}

/// Every prefix of the records of a new account leaves it balanced.
pub proof fn lemma_new_account_stays_balanced(id: u16, txs: Seq<TransactionView>, n: int)
    requires
        0 <= n <= txs.len(),
    ensures
        replay(ClientView::fresh(id), txs.take(n)).balanced(),
{
    lemma_replay_keeps_balance(ClientView::fresh(id), txs.take(n));
}

// Records that do not fit the state of the account.

/// The second of two disputes of one record in a row changes nothing.
pub proof fn lemma_second_dispute_is_noop(c: ClientView, first: TransactionView, second:
    TransactionView)
    requires
        first.kind == TransactionType::Dispute,
        second.kind == TransactionType::Dispute,
        first.tx_id == second.tx_id,
    ensures
        step(step(c, first), second) == step(c, first),
{
}

/// A resolve of a record that is not under dispute, or not in the history,
/// changes nothing.
pub proof fn lemma_resolve_needs_dispute(c: ClientView, tx: TransactionView)
    requires
        tx.kind == TransactionType::Resolve,
        !c.is_disputed(tx.tx_id),
    ensures
        step(c, tx) == c,
{
}

/// A chargeback of a record that is not under dispute, or not in the history,
/// changes nothing.
pub proof fn lemma_chargeback_needs_dispute(c: ClientView, tx: TransactionView)
    requires
        tx.kind == TransactionType::Chargeback,
        !c.is_disputed(tx.tx_id),
    ensures
        step(c, tx) == c,
{
}

/// A dispute of a record that is under dispute already, or not in the
/// history, changes nothing.
pub proof fn lemma_dispute_needs_settled(c: ClientView, tx: TransactionView)
    requires
        tx.kind == TransactionType::Dispute,
        !c.is_settled(tx.tx_id),
    ensures
        step(c, tx) == c,
{
}

/// A withdrawal that the account cannot cover changes nothing.
pub proof fn lemma_uncovered_withdrawal_is_noop(c: ClientView, tx: TransactionView)
    requires
        tx.kind == TransactionType::Withdrawal,
        tx.amount matches Some(a) && a.units() > c.available,
    ensures
        step(c, tx) == c,
{
}

// The lock.

/// A locked account takes no record.
pub proof fn lemma_locked_ignores_record(c: ClientView, tx: TransactionView)
    requires
        c.locked,
    ensures
        step(c, tx) == c,
{
}

/// A locked account stays as it is, whatever stream of records follows.
pub proof fn lemma_lock_is_final(c: ClientView, txs: Seq<TransactionView>)
    requires
        c.locked,
    ensures
        replay(c, txs) == c,
    decreases txs.len(),
{
    if txs.len() > 0 {
        lemma_lock_is_final(c, txs.drop_last());
    }
}

/// No record unlocks an account.
pub proof fn lemma_step_keeps_lock(c: ClientView, tx: TransactionView)
    ensures
        c.locked ==> step(c, tx).locked,
{
}

// The held funds are what is under dispute.

/// The amounts under dispute can be counted from any entry of the history:
/// that entry's part, and the rest.
pub proof fn lemma_disputed_total_from(entries: Map<u32, EntryView>, k: u32)
    requires
        entries.dom().finite(),
        entries.contains_key(k),
    ensures
        disputed_total(entries) == entries[k].held_part() + disputed_total(entries.remove(k)),
    decreases entries.dom().len(),
{
    let c = entries.dom().choose();
    if c != k {
        let rest = entries.remove(c).remove(k);
        assert(entries.remove(k).remove(c) =~= rest);
        lemma_disputed_total_from(entries.remove(c), k);
        lemma_disputed_total_from(entries.remove(k), c);
    }
}

/// With a new or changed entry, the amounts under dispute are that entry's
/// part and those of the other entries.
pub proof fn lemma_disputed_total_insert(entries: Map<u32, EntryView>, k: u32, e: EntryView)
    requires
        entries.dom().finite(),
    ensures
        disputed_total(entries.insert(k, e)) == e.held_part() + disputed_total(entries.remove(k)),
        !entries.contains_key(k) ==> disputed_total(entries.insert(k, e)) == e.held_part()
            + disputed_total(entries),
        entries.contains_key(k) ==> disputed_total(entries.insert(k, e)) == e.held_part()
            - entries[k].held_part() + disputed_total(entries),
{
    assert(entries.insert(k, e).remove(k) =~= entries.remove(k));
    lemma_disputed_total_from(entries.insert(k, e), k);
    if entries.contains_key(k) {
        lemma_disputed_total_from(entries, k);
    } else {
        assert(entries.remove(k) =~= entries);
    }
}

/// Where no amount is negative, the amounts under dispute are not negative
/// together.
pub proof fn lemma_disputed_total_nonnegative(entries: Map<u32, EntryView>)
    requires
        entries.dom().finite(),
        forall|k: u32| #[trigger] entries.contains_key(k) ==> entries[k].amount >= 0,
    ensures
        disputed_total(entries) >= 0,
    decreases entries.dom().len(),
{
    if entries.dom().len() > 0 {
        let k = entries.dom().choose();
        lemma_disputed_total_nonnegative(entries.remove(k));
    }
}

// Funds below zero.

/// A deposit or withdrawal is in order for account `c` where its amount is
/// not negative and its id is new to the history. The other kinds of record
/// are always in order.
pub open spec fn in_order(c: ClientView, tx: TransactionView) -> bool {
    match (tx.kind, tx.amount) {
        (TransactionType::Deposit, Some(a)) | (TransactionType::Withdrawal, Some(a)) => {
            a.units() >= 0 && !c.entries.contains_key(tx.tx_id)
        },
        _ => true,
    }
}

/// A dispute overdraws account `c` where it takes effect and moves more than
/// is available.
pub open spec fn overdraws(c: ClientView, tx: TransactionView) -> bool {
    &&& !c.locked
    &&& tx.kind == TransactionType::Dispute
    &&& c.is_settled(tx.tx_id)
    &&& c.entries[tx.tx_id].amount > c.available
}

/// Every record of the stream is in order for the account it meets, and no
/// dispute overdraws it.
pub open spec fn orderly(c: ClientView, txs: Seq<TransactionView>) -> bool
    decreases txs.len(),
{
    txs.len() > 0 ==> {
        let before = replay(c, txs.drop_last());
        &&& orderly(c, txs.drop_last())
        &&& in_order(before, txs.last())
        &&& !overdraws(before, txs.last())
    }
}

/// A new account is consistent.
pub proof fn lemma_fresh_is_consistent(id: u16)
    ensures
        ClientView::fresh(id).consistent(),
        ClientView::fresh(id).balanced(),
        ClientView::fresh(id).available >= 0,
{
}

/// A record that is in order leaves a consistent account consistent: the
/// held funds stay the amounts under dispute, and never fall below zero.
pub proof fn lemma_step_keeps_consistent(c: ClientView, tx: TransactionView)
    requires
        c.consistent(),
        in_order(c, tx),
    ensures
        step(c, tx).consistent(),
{
    let after = step(c, tx);
    if after != c {
        let id = tx.tx_id;
        match tx.kind {
            TransactionType::Deposit | TransactionType::Withdrawal => {
                lemma_disputed_total_insert(c.entries, id, after.entries[id]);
            },
            TransactionType::Dispute | TransactionType::Resolve => {
                lemma_disputed_total_insert(c.entries, id, after.entries[id]);
                lemma_disputed_total_nonnegative(after.entries);
            },
            TransactionType::Chargeback => {
                lemma_disputed_total_from(c.entries, id);
                lemma_disputed_total_nonnegative(c.entries.remove(id));
            },
        }
    }
}

/// A record that is in order and does not overdraw the account leaves the
/// available funds at zero or above.
pub proof fn lemma_step_keeps_available_nonnegative(c: ClientView, tx: TransactionView)
    requires
        c.consistent(),
        c.available >= 0,
        in_order(c, tx),
        !overdraws(c, tx),
    ensures
        step(c, tx).available >= 0,
{
}

/// A dispute that overdraws the account leaves the available funds below
/// zero: these are the records that the law above must leave out.
pub proof fn lemma_overdrawing_dispute_goes_negative(c: ClientView, tx: TransactionView)
    requires
        overdraws(c, tx),
    ensures
        step(c, tx).available < 0,
        step(c, tx).held == c.held + c.entries[tx.tx_id].amount,
        step(c, tx).total == c.total,
{
}

/// An orderly stream of records leaves an account consistent and balanced,
/// with neither its available nor its held funds below zero.
pub proof fn lemma_orderly_replay(c: ClientView, txs: Seq<TransactionView>)
    requires
        c.consistent(),
        c.balanced(),
        c.available >= 0,
        orderly(c, txs),
    ensures
        replay(c, txs).consistent(),
        replay(c, txs).balanced(),
        replay(c, txs).available >= 0,
        replay(c, txs).held >= 0,
        replay(c, txs).total >= 0,
    decreases txs.len(),
{
    if txs.len() > 0 {
        let before = replay(c, txs.drop_last());
        lemma_orderly_replay(c, txs.drop_last());
        lemma_step_keeps_consistent(before, txs.last());
        lemma_step_keeps_available_nonnegative(before, txs.last());
        lemma_step_keeps_balance(before, txs.last());
    }
}

/// The start of an orderly stream of records is orderly.
pub proof fn lemma_orderly_prefix(c: ClientView, txs: Seq<TransactionView>, n: int)
    requires
        orderly(c, txs),
        0 <= n <= txs.len(),
    ensures
        orderly(c, txs.take(n)),
    decreases txs.len(),
{
    if n == txs.len() {
        assert(txs.take(n) =~= txs);
    } else {
        assert(txs.drop_last().take(n) =~= txs.take(n));
        lemma_orderly_prefix(c, txs.drop_last(), n);
    }
}

/// At every point of an orderly stream of records, a new account is
/// balanced, and neither its available nor its held funds are below zero.
pub proof fn lemma_new_account_funds_stay_nonnegative(
    id: u16,
    txs: Seq<TransactionView>,
    n: int,
)
    requires
        orderly(ClientView::fresh(id), txs),
        0 <= n <= txs.len(),
    ensures
        replay(ClientView::fresh(id), txs.take(n)).balanced(),
        replay(ClientView::fresh(id), txs.take(n)).available >= 0,
        replay(ClientView::fresh(id), txs.take(n)).held >= 0,
{
    lemma_orderly_prefix(ClientView::fresh(id), txs, n);
    lemma_orderly_replay(ClientView::fresh(id), txs.take(n));
}

/// Until an account is locked, its held funds are exactly the amounts of the
/// entries marked as disputed: an entry is marked if and only if its amount
/// is part of the held funds.
pub proof fn lemma_held_is_what_is_disputed(id: u16, txs: Seq<TransactionView>)
    requires
        orderly(ClientView::fresh(id), txs),
        !replay(ClientView::fresh(id), txs).locked,
    ensures
        replay(ClientView::fresh(id), txs).held == disputed_total(
            replay(ClientView::fresh(id), txs).entries,
        ),
{
    lemma_orderly_replay(ClientView::fresh(id), txs);
}

// Precision.

/// An amount written with `PRECISION` fractional digits or fewer is taken as
/// it is: nothing of it is lost.
pub proof fn lemma_units_exact_within_precision(a: DecimalView)
    requires
        a.scale <= PRECISION,
    ensures
        a.units() == a.unscaled * pow(10, (PRECISION - a.scale) as nat),
        a.scale == PRECISION ==> a.units() == a.unscaled,
        rescaled(a.units(), PRECISION as int, a.scale) == a.unscaled,
{
    lemma_rescaled_same_scale(a.unscaled, a.scale);
    lemma_rescaled_up_is_exact(a.unscaled, a.scale, PRECISION as int);
}

/// An amount written with more than `PRECISION` fractional digits loses less
/// than one unit of `10^-PRECISION`, toward zero.
pub proof fn lemma_units_lose_under_one_unit(a: DecimalView)
    requires
        a.scale > PRECISION,
    ensures
        ({
            let p = pow(10, (a.scale - PRECISION) as nat);
            &&& p > 0
            &&& a.unscaled >= 0 ==> 0 <= a.unscaled - a.units() * p < p
            &&& a.unscaled <= 0 ==> -p < a.unscaled - a.units() * p <= 0
        }),
{
    lemma_rescaled_down_loses_under_one_unit(a.unscaled, a.scale, PRECISION as int);
}

/// An amount that is not negative counts as units that are not negative.
pub proof fn lemma_units_keep_sign(a: DecimalView)
    ensures
        a.unscaled >= 0 ==> a.units() >= 0,
        a.unscaled <= 0 ==> a.units() <= 0,
{
    lemma_rescaled_keeps_sign(a.unscaled, a.scale, PRECISION as int);
}

/// The units of all amounts of a stream of records together.
pub open spec fn units_total(txs: Seq<TransactionView>) -> int
    decreases txs.len(),
{
    if txs.len() == 0 {
        0
    } else {
        units_total(txs.drop_last()) + match txs.last().amount {
            Some(a) => a.units(),
            None => 0,
        }
    }
}

/// Every record of the stream is a deposit.
pub open spec fn all_deposits(txs: Seq<TransactionView>) -> bool {
    forall|i: int| 0 <= i < txs.len() ==> (#[trigger] txs[i]).kind == TransactionType::Deposit
}

/// Every record of the stream is a withdrawal.
pub open spec fn all_withdrawals(txs: Seq<TransactionView>) -> bool {
    forall|i: int| 0 <= i < txs.len() ==> (#[trigger] txs[i]).kind == TransactionType::Withdrawal
}

/// Deposits add up exactly: after any number of them the available funds and
/// the total have grown by the sum of their units, to the last digit, and
/// the held funds are what they were.
pub proof fn lemma_deposits_add_up(c: ClientView, txs: Seq<TransactionView>)
    requires
        !c.locked,
        all_deposits(txs),
    ensures
        replay(c, txs).available == c.available + units_total(txs),
        replay(c, txs).total == c.total + units_total(txs),
        replay(c, txs).held == c.held,
        !replay(c, txs).locked,
    decreases txs.len(),
{
    if txs.len() > 0 {
        assert(txs.last() == txs[txs.len() - 1]);
        assert forall|i: int| 0 <= i < txs.drop_last().len() implies (
        #[trigger] txs.drop_last()[i]).kind == TransactionType::Deposit by {
            assert(txs.drop_last()[i] == txs[i]);
        }
        lemma_deposits_add_up(c, txs.drop_last());
    }
}

/// Withdrawals that the account can cover together come off exactly: the
/// available funds and the total have shrunk by the sum of their units.
pub proof fn lemma_withdrawals_come_off(c: ClientView, txs: Seq<TransactionView>)
    requires
        !c.locked,
        all_withdrawals(txs),
        forall|i: int| 0 <= i < txs.len() ==> ((#[trigger] txs[i]).amount matches Some(a)
            && a.units() >= 0),
        units_total(txs) <= c.available,
    ensures
        replay(c, txs).available == c.available - units_total(txs),
        replay(c, txs).total == c.total - units_total(txs),
        replay(c, txs).held == c.held,
        !replay(c, txs).locked,
    decreases txs.len(),
{
    if txs.len() > 0 {
        let front = txs.drop_last();
        assert(txs.last() == txs[txs.len() - 1]);
        assert forall|i: int| 0 <= i < front.len() implies (#[trigger] front[i]).kind
            == TransactionType::Withdrawal && (front[i].amount matches Some(a) && a.units()
            >= 0) by {
            assert(front[i] == txs[i]);
        }
        lemma_withdrawals_come_off(c, front);
    }
}

/// A withdrawal of what was just deposited leaves the balances as they were
/// before the deposit.
pub proof fn lemma_withdrawal_undoes_deposit(
    c: ClientView,
    deposit: TransactionView,
    withdrawal: TransactionView,
)
    requires
        !c.locked,
        c.available >= 0,
        deposit.kind == TransactionType::Deposit,
        withdrawal.kind == TransactionType::Withdrawal,
        deposit.amount is Some,
        withdrawal.amount == deposit.amount,
    ensures
        step(step(c, deposit), withdrawal).available == c.available,
        step(step(c, deposit), withdrawal).total == c.total,
        step(step(c, deposit), withdrawal).held == c.held,
{
}

// Clients apart.

/// No record changes the id of an account.
pub proof fn lemma_step_keeps_id(c: ClientView, tx: TransactionView)
    ensures
        step(c, tx).id == c.id,
{
}

/// No stream of records changes the id of an account.
pub proof fn lemma_replay_keeps_id(c: ClientView, txs: Seq<TransactionView>)
    ensures
        replay(c, txs).id == c.id,
    decreases txs.len(),
{
    if txs.len() > 0 {
        lemma_replay_keeps_id(c, txs.drop_last());
    }
}

/// The records of the stream that belong to client `id`, in order.
pub open spec fn records_of(txs: Seq<TransactionView>, id: u16) -> Seq<TransactionView>
    decreases txs.len(),
{
    if txs.len() == 0 {
        Seq::empty()
    } else if txs.last().client_id == id {
        records_of(txs.drop_last(), id).push(txs.last())
    } else {
        records_of(txs.drop_last(), id)
    }
}

/// The account that client `id` starts from: the one the ledger holds, or a
/// new one.
pub open spec fn account_or_fresh(accounts: Map<u16, ClientView>, id: u16) -> ClientView {
    if accounts.contains_key(id) {
        accounts[id]
    } else {
        ClientView::fresh(id)
    }
}

/// A record changes the account of its own client and no other.
pub proof fn lemma_route_touches_one_account(
    accounts: Map<u16, ClientView>,
    tx: TransactionView,
    id: u16,
)
    requires
        id != tx.client_id,
    ensures
        route(accounts, tx).contains_key(id) == accounts.contains_key(id),
        accounts.contains_key(id) ==> route(accounts, tx)[id] == accounts[id],
        route(accounts, tx).contains_key(tx.client_id),
{
}

/// Clients do not touch each other: after a stream of records, the account
/// of a client is what its own records make of it, in their order, and a
/// client has an account if and only if it had one or has a record.
pub proof fn lemma_route_all_is_replay_per_client(
    accounts: Map<u16, ClientView>,
    txs: Seq<TransactionView>,
    id: u16,
)
    ensures
        route_all(accounts, txs).contains_key(id) <==> accounts.contains_key(id) || records_of(
            txs,
            id,
        ).len() > 0,
        account_or_fresh(route_all(accounts, txs), id) == replay(
            account_or_fresh(accounts, id),
            records_of(txs, id),
        ),
    decreases txs.len(),
{
    if txs.len() > 0 {
        let front = txs.drop_last();
        let last = txs.last();
        lemma_route_all_is_replay_per_client(accounts, front, id);
        if last.client_id == id {
            let own = records_of(front, id).push(last);
            assert(own.drop_last() =~= records_of(front, id));
            assert(own.last() == last);
        }
    }
}

/// In a ledger that started empty, after any stream of records, the total of
/// every account is what is available and what is held together.
pub proof fn lemma_every_account_stays_balanced(txs: Seq<TransactionView>, id: u16)
    requires
        route_all(Map::empty(), txs).contains_key(id),
    ensures
        route_all(Map::empty(), txs)[id].balanced(),
        route_all(Map::empty(), txs)[id].id == id,
{
    let start = Map::<u16, ClientView>::empty();
    lemma_route_all_is_replay_per_client(start, txs, id);
    lemma_replay_keeps_balance(ClientView::fresh(id), records_of(txs, id));
    lemma_replay_keeps_id(ClientView::fresh(id), records_of(txs, id));
}

} // verus!
