use std::str::FromStr;

use bigdecimal::num_bigint::BigInt;
use bigdecimal::BigDecimal;
use bigdecimal::Zero;
use ledger_engine::client::Client;
use ledger_engine::decimal::Decimal;
use ledger_engine::ledger::Ledger;
use ledger_engine::transaction::Transaction;
use ledger_engine::transaction::TransactionType;

const PRECISION: u64 = 5;

fn plain(n: &BigDecimal) -> Decimal {
    let (digits, scale) = n.as_bigint_and_exponent();
    Decimal::new(digits.to_signed_bytes_be(), i16::try_from(scale).unwrap())
}

fn big(d: &Decimal) -> BigDecimal {
    BigDecimal::new(BigInt::from_signed_bytes_be(d.unscaled_bytes()), i64::from(d.scale()))
}

fn deposit(client: u16, tx: u32, amount: &str) -> Transaction {
    let amount = BigDecimal::from_str(amount).unwrap();
    Transaction::new(TransactionType::Deposit, client, tx, Some(plain(&amount)))
}

fn withdrawal(client: u16, tx: u32, amount: &str) -> Transaction {
    let amount = BigDecimal::from_str(amount).unwrap();
    Transaction::new(TransactionType::Withdrawal, client, tx, Some(plain(&amount)))
}

fn dispute(client: u16, tx: u32) -> Transaction {
    Transaction::new(TransactionType::Dispute, client, tx, None)
}

fn resolve(client: u16, tx: u32) -> Transaction {
    Transaction::new(TransactionType::Resolve, client, tx, None)
}

fn chargeback(client: u16, tx: u32) -> Transaction {
    Transaction::new(TransactionType::Chargeback, client, tx, None)
}

fn balances(client: &Client) -> (BigDecimal, BigDecimal, BigDecimal, bool) {
    (big(client.available()), big(client.held()), big(client.total()), client.locked())
}

fn amounts(available: &str, held: &str, total: &str, locked: bool) -> (
    BigDecimal,
    BigDecimal,
    BigDecimal,
    bool,
) {
    (
        BigDecimal::from_str(available).unwrap(),
        BigDecimal::from_str(held).unwrap(),
        BigDecimal::from_str(total).unwrap(),
        locked,
    )
}

#[test]
fn simple_deposit() {
    let amount = BigDecimal::from_str("100").unwrap();

    let mut client = Client::new(1);

    client.process_transaction(&Transaction::new(
        TransactionType::Deposit,
        1,
        1,
        Some(plain(&amount)),
    ));

    assert_eq!(big(client.available()), amount);
    assert_eq!(big(client.total()), amount);
}

#[test]
fn simple_withdrawal() {
    let amount = BigDecimal::from_str("50").unwrap();

    let mut client = Client::new(1);

    client.process_transaction(&Transaction::new(
        TransactionType::Deposit,
        1,
        1,
        Some(plain(&BigDecimal::from_str("100").unwrap())),
    ));

    client.process_transaction(&Transaction::new(
        TransactionType::Withdrawal,
        1,
        2,
        Some(plain(&amount)),
    ));

    assert_eq!(big(client.available()), amount);
    assert_eq!(big(client.total()), amount);
}

#[test]
fn simple_dispute() {
    let amount = BigDecimal::from_str("100").unwrap();

    let mut client = Client::new(1);

    client.process_transaction(&Transaction::new(
        TransactionType::Deposit,
        1,
        1,
        Some(plain(&amount)),
    ));

    client.process_transaction(&Transaction::new(TransactionType::Dispute, 1, 1, None));

    assert_eq!(big(client.available()), BigDecimal::zero().with_prec(PRECISION));
    assert_eq!(big(client.held()), amount);
    assert_eq!(big(client.total()), amount);
    assert!(client.entry(1).unwrap().disputed());
}

#[test]
fn simple_dispute_to_resolve() {
    let amount = BigDecimal::from_str("100").unwrap();

    let mut client = Client::new(1);

    client.process_transaction(&Transaction::new(
        TransactionType::Deposit,
        1,
        1,
        Some(plain(&amount)),
    ));

    client.process_transaction(&Transaction::new(TransactionType::Dispute, 1, 1, None));

    client.process_transaction(&Transaction::new(TransactionType::Resolve, 1, 1, None));

    assert_eq!(big(client.available()), amount);
    assert_eq!(big(client.held()), BigDecimal::zero().with_prec(PRECISION));
    assert_eq!(big(client.total()), amount);
    assert!(!client.entry(1).unwrap().disputed());
}

#[test]
fn simple_dispute_to_chargeback() {
    let amount = BigDecimal::from_str("100").unwrap();

    let mut client = Client::new(1);

    client.process_transaction(&Transaction::new(
        TransactionType::Deposit,
        1,
        1,
        Some(plain(&amount)),
    ));

    client.process_transaction(&Transaction::new(TransactionType::Dispute, 1, 1, None));

    client.process_transaction(&Transaction::new(TransactionType::Chargeback, 1, 1, None));

    assert!(client.locked());
}

#[test]
fn csv_example() {
    let csv = "type,       client,     tx,     amount
                        deposit,    1,          1,      1.0001
                        deposit,    2,          2,      2.0001
                        deposit,    1,          3,      2.0001
                        withdrawal, 1,          4,      1.5002
                        withdrawal, 2,          5,      3.0001
                        dispute,    2,          5,
                        resolve,    2,          5,
                        dispute,    1,          3,
                        chargeback, 1,          3,";

    let mut reader = csv::ReaderBuilder::new().trim(csv::Trim::All).from_reader(csv.as_bytes());
    let mut transactions: Vec<Transaction> = Vec::new();
    for record in reader.records() {
        let record = record.unwrap();
        let kind = match &record[0] {
            "deposit" => TransactionType::Deposit,
            "withdrawal" => TransactionType::Withdrawal,
            "dispute" => TransactionType::Dispute,
            "resolve" => TransactionType::Resolve,
            "chargeback" => TransactionType::Chargeback,
            other => panic!("unknown kind {}", other),
        };
        let amount = match &record[3] {
            "" => None,
            text => Some(plain(&BigDecimal::from_str(text).unwrap())),
        };
        transactions.push(Transaction::new(
            kind,
            record[1].parse().unwrap(),
            record[2].parse().unwrap(),
            amount,
        ));
    }
    assert_eq!(transactions.len(), 9);

    let mut clients = Ledger::new();
    for transaction in &transactions {
        clients.process(transaction);
    }

    assert_eq!(clients.len(), 2);
    assert!(clients.get(1).unwrap().locked());

    assert_eq!(
        big(clients.get(2).unwrap().available()),
        BigDecimal::from_str("2.0001").unwrap().with_prec(PRECISION)
    );
    assert!(!clients.get(2).unwrap().locked());
}

#[test]
fn csv_example_first_client_ends_overdrawn() {
    let mut clients = Ledger::new();
    clients.process_all(&vec![
        deposit(1, 1, "1.0001"),
        deposit(2, 2, "2.0001"),
        deposit(1, 3, "2.0001"),
        withdrawal(1, 4, "1.5002"),
        withdrawal(2, 5, "3.0001"),
        dispute(2, 5),
        resolve(2, 5),
        dispute(1, 3),
        chargeback(1, 3),
    ]);
    assert_eq!(clients.client_ids(), vec![1u16, 2u16]);
    assert_eq!(balances(clients.get(1).unwrap()), amounts("-0.5001", "0", "-0.5001", true));
    assert_eq!(balances(clients.get(2).unwrap()), amounts("2.0001", "0", "2.0001", false));
    assert!(clients.get(2).unwrap().entry(5).is_none());
    assert!(clients.get(3).is_none());
}

#[test]
fn new_account_is_empty() {
    let client = Client::new(7);
    assert_eq!(client.id(), 7);
    assert_eq!(balances(&client), amounts("0", "0", "0", false));
    assert!(client.entry(1).is_none());
    assert_eq!(client.available().scale(), 5);
    assert_eq!(client.held().scale(), 5);
    assert_eq!(client.total().scale(), 5);
}

#[test]
fn deposit_makes_funds_available() {
    let mut client = Client::new(1);
    client.process_transaction(&deposit(1, 1, "100"));
    assert_eq!(balances(&client), amounts("100", "0", "100", false));
    let entry = client.entry(1).unwrap();
    assert_eq!(entry.tx_id(), 1);
    assert_eq!(entry.kind(), TransactionType::Deposit);
    assert_eq!(big(entry.amount()), BigDecimal::from_str("100").unwrap());
    assert!(!entry.disputed());
}

#[test]
fn withdrawal_takes_available_funds() {
    let mut client = Client::new(1);
    client.process_transaction(&deposit(1, 1, "100"));
    client.process_transaction(&withdrawal(1, 2, "50"));
    assert_eq!(balances(&client), amounts("50", "0", "50", false));
    let entry = client.entry(2).unwrap();
    assert_eq!(entry.kind(), TransactionType::Withdrawal);
    assert_eq!(big(entry.amount()), BigDecimal::from_str("50").unwrap());
}

#[test]
fn withdrawal_of_everything_is_accepted() {
    let mut client = Client::new(1);
    client.process_transaction(&deposit(1, 1, "12.5"));
    client.process_transaction(&withdrawal(1, 2, "12.50000"));
    assert_eq!(balances(&client), amounts("0", "0", "0", false));
    assert!(client.entry(2).is_some());
}

#[test]
fn dispute_holds_the_funds() {
    let mut client = Client::new(1);
    client.process_transaction(&deposit(1, 1, "100"));
    client.process_transaction(&dispute(1, 1));
    assert_eq!(balances(&client), amounts("0", "100", "100", false));
    assert!(client.entry(1).unwrap().disputed());
}

#[test]
fn resolve_releases_the_funds() {
    let mut client = Client::new(1);
    client.process_transaction(&deposit(1, 1, "100"));
    client.process_transaction(&dispute(1, 1));
    client.process_transaction(&resolve(1, 1));
    assert_eq!(balances(&client), amounts("100", "0", "100", false));
    assert!(!client.entry(1).unwrap().disputed());
}

#[test]
fn chargeback_removes_the_funds_and_locks() {
    let mut client = Client::new(1);
    client.process_transaction(&deposit(1, 1, "100"));
    client.process_transaction(&dispute(1, 1));
    client.process_transaction(&chargeback(1, 1));
    assert_eq!(balances(&client), amounts("0", "0", "0", true));
    assert!(client.entry(1).unwrap().disputed());
}

#[test]
fn withdrawal_beyond_available_is_skipped() {
    let mut client = Client::new(1);
    client.process_transaction(&deposit(1, 1, "50"));
    client.process_transaction(&withdrawal(1, 2, "100"));
    assert_eq!(balances(&client), amounts("50", "0", "50", false));
    assert!(client.entry(2).is_none());
}

#[test]
fn withdrawal_one_unit_beyond_available_is_skipped() {
    let mut client = Client::new(1);
    client.process_transaction(&deposit(1, 1, "50"));
    client.process_transaction(&withdrawal(1, 2, "50.00001"));
    assert_eq!(balances(&client), amounts("50", "0", "50", false));
    client.process_transaction(&withdrawal(1, 3, "49.99999"));
    assert_eq!(balances(&client), amounts("0.00001", "0", "0.00001", false));
}

#[test]
fn second_dispute_changes_nothing() {
    let mut client = Client::new(1);
    client.process_transaction(&deposit(1, 1, "100"));
    client.process_transaction(&deposit(1, 2, "30"));
    client.process_transaction(&dispute(1, 1));
    let once = balances(&client);
    client.process_transaction(&dispute(1, 1));
    assert_eq!(balances(&client), once);
    assert_eq!(once, amounts("30", "100", "130", false));
    assert!(client.entry(1).unwrap().disputed());
}

#[test]
fn resolve_without_dispute_changes_nothing() {
    let mut client = Client::new(1);
    client.process_transaction(&deposit(1, 1, "100"));
    client.process_transaction(&resolve(1, 1));
    assert_eq!(balances(&client), amounts("100", "0", "100", false));
    assert!(!client.entry(1).unwrap().disputed());
    client.process_transaction(&resolve(1, 9));
    assert_eq!(balances(&client), amounts("100", "0", "100", false));
    assert!(client.entry(9).is_none());
}

#[test]
fn chargeback_without_dispute_changes_nothing() {
    let mut client = Client::new(1);
    client.process_transaction(&deposit(1, 1, "100"));
    client.process_transaction(&chargeback(1, 1));
    assert_eq!(balances(&client), amounts("100", "0", "100", false));
    assert!(!client.entry(1).unwrap().disputed());
    client.process_transaction(&chargeback(1, 9));
    assert_eq!(balances(&client), amounts("100", "0", "100", false));
}

#[test]
fn dispute_of_unknown_record_changes_nothing() {
    let mut client = Client::new(1);
    client.process_transaction(&deposit(1, 1, "100"));
    client.process_transaction(&dispute(1, 2));
    assert_eq!(balances(&client), amounts("100", "0", "100", false));
    assert!(client.entry(2).is_none());
}

#[test]
fn locked_account_takes_no_record() {
    let mut client = Client::new(1);
    client.process_transaction(&deposit(1, 1, "100"));
    client.process_transaction(&deposit(1, 2, "40"));
    client.process_transaction(&dispute(1, 1));
    client.process_transaction(&chargeback(1, 1));
    let locked = amounts("40", "0", "40", true);
    assert_eq!(balances(&client), locked);

    client.process_transaction(&deposit(1, 3, "5"));
    assert_eq!(balances(&client), locked);
    assert!(client.entry(3).is_none());
    client.process_transaction(&withdrawal(1, 4, "5"));
    assert_eq!(balances(&client), locked);
    client.process_transaction(&dispute(1, 2));
    assert_eq!(balances(&client), locked);
    assert!(!client.entry(2).unwrap().disputed());
    client.process_transaction(&resolve(1, 1));
    assert_eq!(balances(&client), locked);
    assert!(client.entry(1).unwrap().disputed());
    client.process_transaction(&chargeback(1, 1));
    assert_eq!(balances(&client), locked);
}

#[test]
fn dispute_of_a_withdrawal_holds_its_amount() {
    let mut client = Client::new(1);
    client.process_transaction(&deposit(1, 1, "100"));
    client.process_transaction(&withdrawal(1, 2, "30"));
    client.process_transaction(&dispute(1, 2));
    assert_eq!(balances(&client), amounts("40", "30", "70", false));
}

#[test]
fn dispute_after_withdrawal_overdraws_available() {
    let mut client = Client::new(1);
    client.process_transaction(&deposit(1, 1, "100"));
    client.process_transaction(&withdrawal(1, 2, "50"));
    client.process_transaction(&dispute(1, 1));
    assert_eq!(balances(&client), amounts("-50", "100", "50", false));
}

#[test]
fn record_without_amount_changes_nothing() {
    let mut client = Client::new(1);
    client.process_transaction(&deposit(1, 1, "10"));
    client.process_transaction(&Transaction::new(TransactionType::Deposit, 1, 2, None));
    client.process_transaction(&Transaction::new(TransactionType::Withdrawal, 1, 3, None));
    assert_eq!(balances(&client), amounts("10", "0", "10", false));
    assert!(client.entry(2).is_none());
    assert!(client.entry(3).is_none());
}

#[test]
fn total_is_available_plus_held_after_every_record() {
    let records = vec![
        deposit(1, 1, "10.5"),
        deposit(1, 2, "0.00001"),
        withdrawal(1, 3, "3.25"),
        dispute(1, 1),
        withdrawal(1, 4, "100"),
        resolve(1, 1),
        dispute(1, 2),
        dispute(1, 3),
        deposit(1, 5, "7"),
        chargeback(1, 3),
        deposit(1, 6, "1"),
    ];
    let mut client = Client::new(1);
    for record in &records {
        client.process_transaction(record);
        let (available, held, total, _) = balances(&client);
        assert_eq!(total, available + held);
    }
    assert_eq!(balances(&client), amounts("11.00000", "0.00001", "11.00001", true));
}

#[test]
fn amounts_are_kept_to_five_digits() {
    let mut client = Client::new(1);
    client.process_transaction(&deposit(1, 1, "1.000019"));
    assert_eq!(balances(&client), amounts("1.00001", "0", "1.00001", false));
    assert_eq!(client.available().scale(), 5);
    assert_eq!(client.entry(1).unwrap().amount().scale(), 5);
    assert_eq!(big(client.entry(1).unwrap().amount()), BigDecimal::from_str("1.00001").unwrap());
    client.process_transaction(&deposit(1, 2, "0.000009"));
    assert_eq!(balances(&client), amounts("1.00001", "0", "1.00001", false));
    client.process_transaction(&deposit(1, 3, "2e2"));
    assert_eq!(balances(&client), amounts("201.00001", "0", "201.00001", false));
    assert_eq!(client.total().scale(), 5);
}

#[test]
fn negative_amount_is_cut_toward_zero() {
    let mut client = Client::new(1);
    client.process_transaction(&deposit(1, 1, "5"));
    client.process_transaction(&deposit(1, 2, "-1.000019"));
    assert_eq!(balances(&client), amounts("3.99999", "0", "3.99999", false));
}

#[test]
fn stored_numbers_are_plain_integers_of_units() {
    let mut client = Client::new(1);
    client.process_transaction(&deposit(1, 1, "100"));
    assert_eq!(client.available().scale(), 5);
    assert_eq!(client.available().unscaled_bytes(), &vec![0x00u8, 0x98u8, 0x96u8, 0x80u8]);
    client.process_transaction(&withdrawal(1, 2, "100.00000"));
    assert_eq!(big(client.available()), BigDecimal::from_str("0").unwrap());
    assert_eq!(client.available().scale(), 5);
}

#[test]
fn many_small_deposits_add_up_exactly() {
    let mut client = Client::new(1);
    let mut tx: u32 = 0;
    while tx < 1000 {
        tx += 1;
        client.process_transaction(&deposit(1, tx, "0.00001"));
    }
    assert_eq!(balances(&client), amounts("0.01", "0", "0.01", false));
    while tx < 2000 {
        tx += 1;
        client.process_transaction(&withdrawal(1, tx, "0.00001"));
    }
    assert_eq!(balances(&client), amounts("0", "0", "0", false));
    assert_eq!(client.available().scale(), 5);
}

#[test]
fn large_amounts_are_exact() {
    let mut client = Client::new(1);
    client.process_transaction(&deposit(1, 1, "123456789012345678901234567890.12345"));
    client.process_transaction(&deposit(1, 2, "0.00001"));
    client.process_transaction(&withdrawal(1, 3, "123456789012345678901234567890"));
    assert_eq!(balances(&client), amounts("0.12346", "0", "0.12346", false));
}

#[test]
fn records_go_to_their_own_client() {
    let mut ledger = Ledger::new();
    assert_eq!(ledger.len(), 0);
    ledger.process(&deposit(300, 1, "5"));
    ledger.process(&deposit(2, 2, "7"));
    ledger.process(&withdrawal(300, 3, "1"));
    ledger.process(&dispute(9, 1));
    assert_eq!(ledger.len(), 3);
    assert_eq!(ledger.client_ids(), vec![2u16, 9u16, 300u16]);
    assert_eq!(balances(ledger.get(300).unwrap()), amounts("4", "0", "4", false));
    assert_eq!(balances(ledger.get(2).unwrap()), amounts("7", "0", "7", false));
    assert_eq!(balances(ledger.get(9).unwrap()), amounts("0", "0", "0", false));
    assert_eq!(ledger.get(9).unwrap().id(), 9);
    assert!(ledger.get(1).is_none());
}

#[test]
fn dispute_reaches_only_the_clients_own_history() {
    let mut ledger = Ledger::new();
    ledger.process(&deposit(1, 1, "5"));
    ledger.process(&deposit(2, 2, "7"));
    ledger.process(&dispute(2, 1));
    assert_eq!(balances(ledger.get(1).unwrap()), amounts("5", "0", "5", false));
    assert_eq!(balances(ledger.get(2).unwrap()), amounts("7", "0", "7", false));
    assert!(!ledger.get(1).unwrap().entry(1).unwrap().disputed());
}

#[test]
fn ledger_covers_the_whole_range_of_ids() {
    let mut ledger = Ledger::new();
    ledger.process(&deposit(65535, 1, "1"));
    ledger.process(&deposit(0, 2, "2"));
    assert_eq!(ledger.client_ids(), vec![0u16, 65535u16]);
    assert_eq!(Ledger::new().client_ids(), Vec::<u16>::new());
}

#[test]
fn transaction_hands_back_its_fields() {
    let record = deposit(4, 11, "1.5");
    assert_eq!(record.kind(), TransactionType::Deposit);
    assert_eq!(record.client_id(), 4);
    assert_eq!(record.tx_id(), 11);
    assert_eq!(big(record.amount().unwrap()), BigDecimal::from_str("1.5").unwrap());
    assert_eq!(record.amount().unwrap().scale(), 1);
    assert!(dispute(4, 11).amount().is_none());
}

#[test]
fn decimal_keeps_its_plain_values() {
    let d = Decimal::new(vec![0xfbu8, 0x9bu8], 2);
    assert_eq!(d.scale(), 2);
    assert_eq!(d.unscaled_bytes(), &vec![0xfbu8, 0x9bu8]);
    assert_eq!(big(&d), BigDecimal::from_str("-11.25").unwrap());
    let zero = Decimal::zero();
    assert_eq!(zero.scale(), 5);
    assert_eq!(big(&zero), BigDecimal::zero());
    assert!(zero.unscaled_bytes().is_empty());
}

fn number(text: &str) -> Decimal {
    plain(&BigDecimal::from_str(text).unwrap())
}

#[test]
fn decimals_compare_as_numbers() {
    assert_eq!(number("1.5"), number("1.50"));
    assert_eq!(number("1.50"), number("1.5"));
    assert_eq!(number("100"), number("1e2"));
    assert_eq!(number("0"), number("0.000"));
    assert_eq!(number("-2.5"), number("-2.500"));
    assert_eq!(Decimal::zero(), number("0"));
    assert_ne!(number("1.5"), number("1.51"));
    assert_ne!(number("1.5"), number("-1.5"));
    assert_ne!(number("1.00001"), number("1"));
    assert_ne!(number("100"), number("10"));
    assert_ne!(
        number("123456789012345678901234567890.00001"),
        number("123456789012345678901234567890")
    );
}

#[test]
fn decimals_differ_by_the_last_digit_only() {
    assert_ne!(number("0.000001"), number("0"));
    assert_ne!(number("1e-30"), number("0"));
    assert_eq!(number("1e-30"), number("0.000000000000000000000000000001"));
}

#[test]
fn balances_equal_the_amounts_put_in() {
    let mut client = Client::new(1);
    client.process_transaction(&deposit(1, 1, "100"));
    assert_eq!(*client.available(), number("100"));
    assert_eq!(*client.total(), number("100.0"));
    assert_eq!(*client.held(), number("0"));
    assert_ne!(*client.available(), number("100.00001"));
    let copy = client.available().clone();
    assert_eq!(copy, *client.available());
    assert_eq!(copy.scale(), 5);
}
